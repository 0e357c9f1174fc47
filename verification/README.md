# git_ai_ignore

Decides which files are left out of authorship attribution.

- `src/` is the verified library (Verus). Each public function states its
  result over `Seq<char>` models:
  - `text`: Unicode whitespace, line splitting, trimming, prefixes and ASCII
    case-insensitive comparison;
  - `dedupe`: removing repeated patterns, keeping first occurrences;
  - `defaults`: the built-in ignore list;
  - `ignore_file`: parsing `.git-ai-ignore`;
  - `gitattributes`: tokenizing `.gitattributes` lines and finding the
    `linguist-generated` paths;
  - `matcher`: globs (through the `glob` crate) and exact names, and the
    `IgnoreMatcher`;
  - `effective`: the combined list for the work tree or for a commit.
- `app/` reads the root files from disk or from a repository and hands their
  contents to the library.
- `tests/` runs the library on concrete inputs.
