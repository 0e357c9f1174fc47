//! Which files count as ignored when attributing authorship: a built-in list
//! of lockfiles and generated code, the `linguist-generated` paths of the root
//! `.gitattributes`, the patterns of the root `.git-ai-ignore`, and the
//! caller's and user's own patterns; and a matcher that decides whether a path
//! is ignored by globs or exact names.
pub mod dedupe;
pub mod defaults;
pub mod effective;
pub mod gitattributes;
pub mod ignore_file;
pub mod matcher;
pub mod text;

pub use dedupe::dedupe_patterns;
pub use defaults::default_ignore_patterns;
pub use effective::{
    effective_ignore_patterns, effective_ignore_patterns_at_commit,
    load_root_ignore_files_at_commit, root_ignore_file_keys,
};
pub use gitattributes::{
    load_linguist_generated_patterns_from_root_gitattributes, parse_linguist_generated_patterns,
    split_gitattributes_tokens,
};
pub use ignore_file::{load_git_ai_ignore_patterns, parse_git_ai_ignore_patterns};
pub use matcher::{
    build_ignore_matcher, should_ignore_file, should_ignore_file_with_matcher, IgnoreMatcher,
};
