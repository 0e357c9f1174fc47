//! The built-in ignore list: lockfiles, generated and minified code,
//! vendored dependencies, snapshots and protobuf output.
use vstd::prelude::*;

use crate::text::string_views;

verus! {

/// The built-in pattern at position `i` (the last one for `i` past the end).
pub open spec fn default_pattern(i: int) -> Seq<char> {
    if i == 0 {
        "*.lock"@
    } else if i == 1 {
        "Cargo.lock"@
    } else if i == 2 {
        "package-lock.json"@
    } else if i == 3 {
        "yarn.lock"@
    } else if i == 4 {
        "pnpm-lock.yaml"@
    } else if i == 5 {
        "go.sum"@
    } else if i == 6 {
        "Gemfile.lock"@
    } else if i == 7 {
        "poetry.lock"@
    } else if i == 8 {
        "composer.lock"@
    } else if i == 9 {
        "Pipfile.lock"@
    } else if i == 10 {
        "shrinkwrap.yaml"@
    } else if i == 11 {
        "*.generated.*"@
    } else if i == 12 {
        "*.min.js"@
    } else if i == 13 {
        "*.min.css"@
    } else if i == 14 {
        "*.map"@
    } else if i == 15 {
        "**/vendor/**"@
    } else if i == 16 {
        "**/node_modules/**"@
    } else if i == 17 {
        "**/__snapshots__/**"@
    } else if i == 18 {
        "**/*.snap"@
    } else if i == 19 {
        "**/*.snap.new"@
    } else if i == 20 {
        "**/drizzle/meta/**"@
    } else if i == 21 {
        "*.pbobjc.h"@
    } else if i == 22 {
        "*.pbobjc.m"@
    } else if i == 23 {
        "*.pb.go"@
    } else if i == 24 {
        "*.pb.h"@
    } else if i == 25 {
        "*.pb.cc"@
    } else if i == 26 {
        "*_pb2.py"@
    } else if i == 27 {
        "*_pb2_grpc.py"@
    } else if i == 28 {
        "*.pb.swift"@
    } else {
        "*.pb.dart"@
    }
}

/// The built-in patterns, in order.
pub open spec fn default_patterns() -> Seq<Seq<char>> {
    Seq::new(30, |i: int| default_pattern(i))
}

/// The built-in patterns are pairwise distinct.
#[verifier::rlimit(100)]
pub proof fn lemma_default_patterns_distinct()
    ensures
        default_patterns().no_duplicates(),
{
    reveal_strlit("*.lock");
    reveal_strlit("Cargo.lock");
    reveal_strlit("package-lock.json");
    reveal_strlit("yarn.lock");
    reveal_strlit("pnpm-lock.yaml");
    reveal_strlit("go.sum");
    reveal_strlit("Gemfile.lock");
    reveal_strlit("poetry.lock");
    reveal_strlit("composer.lock");
    reveal_strlit("Pipfile.lock");
    reveal_strlit("shrinkwrap.yaml");
    reveal_strlit("*.generated.*");
    reveal_strlit("*.min.js");
    reveal_strlit("*.min.css");
    reveal_strlit("*.map");
    reveal_strlit("**/vendor/**");
    reveal_strlit("**/node_modules/**");
    reveal_strlit("**/__snapshots__/**");
    reveal_strlit("**/*.snap");
    reveal_strlit("**/*.snap.new");
    reveal_strlit("**/drizzle/meta/**");
    reveal_strlit("*.pbobjc.h");
    reveal_strlit("*.pbobjc.m");
    reveal_strlit("*.pb.go");
    reveal_strlit("*.pb.h");
    reveal_strlit("*.pb.cc");
    reveal_strlit("*_pb2.py");
    reveal_strlit("*_pb2_grpc.py");
    reveal_strlit("*.pb.swift");
    reveal_strlit("*.pb.dart");
    assert(default_pattern(0)[0] != default_pattern(5)[0]);
    assert(default_pattern(0)[2] != default_pattern(24)[2]);
    assert(default_pattern(1)[0] != default_pattern(21)[0]);
    assert(default_pattern(1)[0] != default_pattern(22)[0]);
    assert(default_pattern(1)[0] != default_pattern(28)[0]);
    assert(default_pattern(3)[0] != default_pattern(13)[0]);
    assert(default_pattern(3)[0] != default_pattern(18)[0]);
    assert(default_pattern(3)[0] != default_pattern(29)[0]);
    assert(default_pattern(5)[0] != default_pattern(24)[0]);
    assert(default_pattern(6)[0] != default_pattern(9)[0]);
    assert(default_pattern(6)[0] != default_pattern(15)[0]);
    assert(default_pattern(8)[0] != default_pattern(11)[0]);
    assert(default_pattern(8)[0] != default_pattern(19)[0]);
    assert(default_pattern(8)[0] != default_pattern(27)[0]);
    assert(default_pattern(9)[0] != default_pattern(15)[0]);
    assert(default_pattern(11)[1] != default_pattern(19)[1]);
    assert(default_pattern(11)[1] != default_pattern(27)[1]);
    assert(default_pattern(12)[1] != default_pattern(26)[1]);
    assert(default_pattern(13)[1] != default_pattern(18)[1]);
    assert(default_pattern(13)[2] != default_pattern(29)[2]);
    assert(default_pattern(16)[3] != default_pattern(20)[3]);
    assert(default_pattern(18)[1] != default_pattern(29)[1]);
    assert(default_pattern(19)[1] != default_pattern(27)[1]);
    assert(default_pattern(21)[9] != default_pattern(22)[9]);
    assert(default_pattern(21)[4] != default_pattern(28)[4]);
    assert(default_pattern(22)[4] != default_pattern(28)[4]);
    assert(default_pattern(23)[5] != default_pattern(25)[5]);
    let d = default_patterns();
    assert forall|i: int, j: int| 0 <= i < d.len() && 0 <= j < d.len() && i != j implies d[i] != d[j] by {
        assert(d[i] == default_pattern(i));
        assert(d[j] == default_pattern(j));
    }
}

/// The built-in list is exactly these thirty patterns: the lockfiles of the
/// common package managers, generated and minified code and source maps,
/// vendored and installed dependencies, test snapshots and drizzle metadata,
/// and protobuf output.
pub proof fn lemma_default_patterns_contents()
    ensures
        default_patterns().len() == 30,
        default_patterns().to_set() == set![
            // lockfiles of the common package managers
            "*.lock"@,
            "Cargo.lock"@,
            "package-lock.json"@,
            "yarn.lock"@,
            "pnpm-lock.yaml"@,
            "go.sum"@,
            "Gemfile.lock"@,
            "poetry.lock"@,
            "composer.lock"@,
            "Pipfile.lock"@,
            "shrinkwrap.yaml"@,
            // generated and minified code and source maps
            "*.generated.*"@,
            "*.min.js"@,
            "*.min.css"@,
            "*.map"@,
            // vendored and installed dependencies, test snapshots and drizzle metadata
            "**/vendor/**"@,
            "**/node_modules/**"@,
            "**/__snapshots__/**"@,
            "**/*.snap"@,
            "**/*.snap.new"@,
            "**/drizzle/meta/**"@,
            // protobuf output for Objective-C, Go, C++, Python, Swift and Dart
            "*.pbobjc.h"@,
            "*.pbobjc.m"@,
            "*.pb.go"@,
            "*.pb.h"@,
            "*.pb.cc"@,
            "*_pb2.py"@,
            "*_pb2_grpc.py"@,
            "*.pb.swift"@,
            "*.pb.dart"@,
        ],
{
    let d = default_patterns();
    assert(d[0] == "*.lock"@);
    assert(d[1] == "Cargo.lock"@);
    assert(d[2] == "package-lock.json"@);
    assert(d[3] == "yarn.lock"@);
    assert(d[4] == "pnpm-lock.yaml"@);
    assert(d[5] == "go.sum"@);
    assert(d[6] == "Gemfile.lock"@);
    assert(d[7] == "poetry.lock"@);
    assert(d[8] == "composer.lock"@);
    assert(d[9] == "Pipfile.lock"@);
    assert(d[10] == "shrinkwrap.yaml"@);
    assert(d[11] == "*.generated.*"@);
    assert(d[12] == "*.min.js"@);
    assert(d[13] == "*.min.css"@);
    assert(d[14] == "*.map"@);
    assert(d[15] == "**/vendor/**"@);
    assert(d[16] == "**/node_modules/**"@);
    assert(d[17] == "**/__snapshots__/**"@);
    assert(d[18] == "**/*.snap"@);
    assert(d[19] == "**/*.snap.new"@);
    assert(d[20] == "**/drizzle/meta/**"@);
    assert(d[21] == "*.pbobjc.h"@);
    assert(d[22] == "*.pbobjc.m"@);
    assert(d[23] == "*.pb.go"@);
    assert(d[24] == "*.pb.h"@);
    assert(d[25] == "*.pb.cc"@);
    assert(d[26] == "*_pb2.py"@);
    assert(d[27] == "*_pb2_grpc.py"@);
    assert(d[28] == "*.pb.swift"@);
    assert(d[29] == "*.pb.dart"@);
    assert(d.to_set() =~= set![
        // lockfiles of the common package managers
        "*.lock"@,
        "Cargo.lock"@,
        "package-lock.json"@,
        "yarn.lock"@,
        "pnpm-lock.yaml"@,
        "go.sum"@,
        "Gemfile.lock"@,
        "poetry.lock"@,
        "composer.lock"@,
        "Pipfile.lock"@,
        "shrinkwrap.yaml"@,
        // generated and minified code and source maps
        "*.generated.*"@,
        "*.min.js"@,
        "*.min.css"@,
        "*.map"@,
        // vendored and installed dependencies, test snapshots and drizzle metadata
        "**/vendor/**"@,
        "**/node_modules/**"@,
        "**/__snapshots__/**"@,
        "**/*.snap"@,
        "**/*.snap.new"@,
        "**/drizzle/meta/**"@,
        // protobuf output for Objective-C, Go, C++, Python, Swift and Dart
        "*.pbobjc.h"@,
        "*.pbobjc.m"@,
        "*.pb.go"@,
        "*.pb.h"@,
        "*.pb.cc"@,
        "*_pb2.py"@,
        "*_pb2_grpc.py"@,
        "*.pb.swift"@,
        "*.pb.dart"@,
    ]);
}

/// The built-in patterns, in order: lockfiles, generated and minified code,
/// vendored dependencies, snapshots, drizzle metadata and protobuf output.
pub fn default_ignore_patterns() -> (r: Vec<String>)
    ensures
        string_views(r@) == default_patterns(),
{
    let mut r: Vec<String> = Vec::new();
    r.push("*.lock".to_owned());
    r.push("Cargo.lock".to_owned());
    r.push("package-lock.json".to_owned());
    r.push("yarn.lock".to_owned());
    r.push("pnpm-lock.yaml".to_owned());
    r.push("go.sum".to_owned());
    r.push("Gemfile.lock".to_owned());
    r.push("poetry.lock".to_owned());
    r.push("composer.lock".to_owned());
    r.push("Pipfile.lock".to_owned());
    r.push("shrinkwrap.yaml".to_owned());
    r.push("*.generated.*".to_owned());
    r.push("*.min.js".to_owned());
    r.push("*.min.css".to_owned());
    r.push("*.map".to_owned());
    r.push("**/vendor/**".to_owned());
    r.push("**/node_modules/**".to_owned());
    r.push("**/__snapshots__/**".to_owned());
    r.push("**/*.snap".to_owned());
    r.push("**/*.snap.new".to_owned());
    r.push("**/drizzle/meta/**".to_owned());
    r.push("*.pbobjc.h".to_owned());
    r.push("*.pbobjc.m".to_owned());
    r.push("*.pb.go".to_owned());
    r.push("*.pb.h".to_owned());
    r.push("*.pb.cc".to_owned());
    r.push("*_pb2.py".to_owned());
    r.push("*_pb2_grpc.py".to_owned());
    r.push("*.pb.swift".to_owned());
    r.push("*.pb.dart".to_owned());
    assert(string_views(r@) =~= default_patterns());
    r
}

} // verus!
