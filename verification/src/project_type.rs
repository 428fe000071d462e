//! The rule table: which marker files identify each kind of development
//! project, and which of its subdirectories hold regenerable build output.
//!
//! Detection works on the names of a directory's immediate entries. A caller
//! lists the directory once and hands the names over; the functions here
//! decide, so that every rule of the table is verified.

use vstd::prelude::*;
use crate::text::{seq_ends_with, str_ends_with, str_eq};

verus! {

/// The kinds of development project the scanner recognises.
#[derive(Debug, Clone, Copy, PartialEq, Eq, Structural)]
pub enum ProjectType {
    /// Rust projects (Cargo.toml)
    Rust,
    /// Node.js/JavaScript projects (package.json)
    Node,
    /// Python projects (.py files with common artifacts)
    Python,
    /// .NET projects (.csproj, .fsproj)
    DotNet,
    /// Unity game engine projects
    Unity,
    /// Unreal Engine projects (.uproject)
    Unreal,
    /// Java Maven projects (pom.xml)
    Maven,
    /// Java/Kotlin Gradle projects (build.gradle)
    Gradle,
    /// CMake projects (CMakeLists.txt)
    CMake,
    /// Haskell Stack projects (stack.yaml)
    HaskellStack,
    /// Scala SBT projects (build.sbt)
    ScalaSBT,
    /// PHP Composer projects (composer.json)
    Composer,
    /// Dart/Flutter projects (pubspec.yaml)
    Dart,
    /// Elixir projects (mix.exs)
    Elixir,
    /// Swift projects (Package.swift)
    Swift,
    /// Zig projects (build.zig)
    Zig,
    /// Godot 4.x projects (project.godot)
    Godot,
    /// Jupyter notebooks (.ipynb)
    Jupyter,
}

/// Whether some entry of a directory listing equals `name`.
pub open spec fn listing_has(entries: Seq<Seq<char>>, name: Seq<char>) -> bool {
    exists|i: int| 0 <= i < entries.len() && entries[i] == name
}

/// Whether some entry of a directory listing equals one of `names`.
pub open spec fn listing_has_any(entries: Seq<Seq<char>>, names: Seq<Seq<char>>) -> bool {
    exists|i: int| 0 <= i < names.len() && listing_has(entries, names[i])
}

impl ProjectType {
    /// The human-readable name of the project type.
    pub open spec fn spec_name(self) -> Seq<char> {
        match self {
            Self::Rust => "Rust"@,
            Self::Node => "Node.js"@,
            Self::Python => "Python"@,
            Self::DotNet => ".NET"@,
            Self::Unity => "Unity"@,
            Self::Unreal => "Unreal Engine"@,
            Self::Maven => "Maven"@,
            Self::Gradle => "Gradle"@,
            Self::CMake => "CMake"@,
            Self::HaskellStack => "Haskell Stack"@,
            Self::ScalaSBT => "Scala SBT"@,
            Self::Composer => "PHP Composer"@,
            Self::Dart => "Dart/Flutter"@,
            Self::Elixir => "Elixir"@,
            Self::Swift => "Swift"@,
            Self::Zig => "Zig"@,
            Self::Godot => "Godot"@,
            Self::Jupyter => "Jupyter"@,
        }
    }

    /// Returns the human-readable name of the project type.
    pub fn name(&self) -> (r: &'static str)
        ensures
            r@ == self.spec_name(),
    {
        match self {
            Self::Rust => "Rust",
            Self::Node => "Node.js",
            Self::Python => "Python",
            Self::DotNet => ".NET",
            Self::Unity => "Unity",
            Self::Unreal => "Unreal Engine",
            Self::Maven => "Maven",
            Self::Gradle => "Gradle",
            Self::CMake => "CMake",
            Self::HaskellStack => "Haskell Stack",
            Self::ScalaSBT => "Scala SBT",
            Self::Composer => "PHP Composer",
            Self::Dart => "Dart/Flutter",
            Self::Elixir => "Elixir",
            Self::Swift => "Swift",
            Self::Zig => "Zig",
            Self::Godot => "Godot",
            Self::Jupyter => "Jupyter",
        }
    }

    /// The relative names of the directories that hold this project type's
    /// regenerable build artifacts.
    pub open spec fn spec_artifact_dirs(self) -> Seq<Seq<char>> {
        match self {
            Self::Rust => seq!["target"@, ".xwin-cache"@],
            Self::Node => seq![
                "node_modules"@,
                ".next"@,
                ".nuxt"@,
                "dist"@,
                "build"@,
                ".angular"@,
            ],
            Self::Python => seq![
                "__pycache__"@,
                ".pytest_cache"@,
                ".mypy_cache"@,
                ".ruff_cache"@,
                ".tox"@,
                ".nox"@,
                ".venv"@,
                "venv"@,
                ".hypothesis"@,
                "__pypackages__"@,
                "*.egg-info"@,
            ],
            Self::DotNet => seq!["bin"@, "obj"@],
            Self::Unity => seq![
                "Library"@,
                "Temp"@,
                "Obj"@,
                "Logs"@,
                "MemoryCaptures"@,
                "Build"@,
                "Builds"@,
            ],
            Self::Unreal => seq![
                "Binaries"@,
                "Build"@,
                "Saved"@,
                "Intermediate"@,
                "DerivedDataCache"@,
            ],
            Self::Maven => seq!["target"@],
            Self::Gradle => seq!["build"@, ".gradle"@],
            Self::CMake => seq!["build"@, "cmake-build-debug"@, "cmake-build-release"@],
            Self::HaskellStack => seq![".stack-work"@],
            Self::ScalaSBT => seq!["target"@, "project/target"@],
            Self::Composer => seq!["vendor"@],
            Self::Dart => seq!["build"@, ".dart_tool"@],
            Self::Elixir => seq!["_build"@, ".elixir-tools"@, ".elixir_ls"@, ".lexical"@],
            Self::Swift => seq![".build"@, ".swiftpm"@],
            Self::Zig => seq!["zig-cache"@, "zig-out"@],
            Self::Godot => seq![".godot"@],
            Self::Jupyter => seq![".ipynb_checkpoints"@],
        }
    }

    /// Returns the directories that contain build artifacts for this project
    /// type.
    pub fn artifact_directories(&self) -> (r: Vec<&'static str>)
        ensures
            r.deep_view() == self.spec_artifact_dirs(),
    {
        let r: Vec<&'static str> = match self {
            Self::Rust => vec!["target", ".xwin-cache"],
            Self::Node => vec!["node_modules", ".next", ".nuxt", "dist", "build", ".angular"],
            Self::Python => vec![
                "__pycache__",
                ".pytest_cache",
                ".mypy_cache",
                ".ruff_cache",
                ".tox",
                ".nox",
                ".venv",
                "venv",
                ".hypothesis",
                "__pypackages__",
                "*.egg-info",
            ],
            Self::DotNet => vec!["bin", "obj"],
            Self::Unity => vec![
                "Library",
                "Temp",
                "Obj",
                "Logs",
                "MemoryCaptures",
                "Build",
                "Builds",
            ],
            Self::Unreal => vec!["Binaries", "Build", "Saved", "Intermediate", "DerivedDataCache"],
            Self::Maven => vec!["target"],
            Self::Gradle => vec!["build", ".gradle"],
            Self::CMake => vec!["build", "cmake-build-debug", "cmake-build-release"],
            Self::HaskellStack => vec![".stack-work"],
            Self::ScalaSBT => vec!["target", "project/target"],
            Self::Composer => vec!["vendor"],
            Self::Dart => vec!["build", ".dart_tool"],
            Self::Elixir => vec!["_build", ".elixir-tools", ".elixir_ls", ".lexical"],
            Self::Swift => vec![".build", ".swiftpm"],
            Self::Zig => vec!["zig-cache", "zig-out"],
            Self::Godot => vec![".godot"],
            Self::Jupyter => vec![".ipynb_checkpoints"],
        };
        proof {
            assert(r.deep_view() =~= self.spec_artifact_dirs());
        }
        r
    }

    /// Checks whether a directory listing contains an entry with exactly the
    /// given name.
    pub fn has_file(entries: &Vec<String>, file_name: &str) -> (r: bool)
        ensures
            r == listing_has(entries.deep_view(), file_name@),
    {
        let n = entries.len();
        let mut i: usize = 0;
        while i < n
            invariant
                n == entries@.len(),
                i <= n,
                forall|k: int| 0 <= k < i ==> entries.deep_view()[k] != file_name@,
            decreases n - i,
        {
            if str_eq(entries[i].as_str(), file_name) {
                proof {
                    assert(entries.deep_view()[i as int] == file_name@);
                }
                return true;
            }
            proof {
                assert(entries.deep_view()[i as int] == entries@[i as int]@);
            }
            i += 1;
        }
        false
    }

    /// Checks whether a directory listing contains any of the given artifact
    /// names.
    pub fn has_any_artifact(entries: &Vec<String>, artifacts: &Vec<&str>) -> (r: bool)
        ensures
            r == listing_has_any(entries.deep_view(), artifacts.deep_view()),
    {
        let n = artifacts.len();
        let mut i: usize = 0;
        while i < n
            invariant
                n == artifacts@.len(),
                i <= n,
                forall|k: int| 0 <= k < i
                    ==> !listing_has(entries.deep_view(), artifacts.deep_view()[k]),
            decreases n - i,
        {
            proof {
                assert(artifacts.deep_view()[i as int] == artifacts@[i as int]@);
            }
            if Self::has_file(entries, artifacts[i]) {
                return true;
            }
            i += 1;
        }
        false
    }
}

/// The project type named by an exact marker file name, if any.
pub open spec fn exact_marker(name: Seq<char>) -> Option<ProjectType> {
    if name == "Cargo.toml"@ {
        Some(ProjectType::Rust)
    } else if name == "package.json"@ {
        Some(ProjectType::Node)
    } else if name == "pom.xml"@ {
        Some(ProjectType::Maven)
    } else if name == "build.gradle"@ || name == "build.gradle.kts"@ {
        Some(ProjectType::Gradle)
    } else if name == "CMakeLists.txt"@ {
        Some(ProjectType::CMake)
    } else if name == "stack.yaml"@ {
        Some(ProjectType::HaskellStack)
    } else if name == "build.sbt"@ {
        Some(ProjectType::ScalaSBT)
    } else if name == "composer.json"@ {
        Some(ProjectType::Composer)
    } else if name == "pubspec.yaml"@ {
        Some(ProjectType::Dart)
    } else if name == "mix.exs"@ {
        Some(ProjectType::Elixir)
    } else if name == "Package.swift"@ {
        Some(ProjectType::Swift)
    } else if name == "build.zig"@ {
        Some(ProjectType::Zig)
    } else if name == "project.godot"@ {
        Some(ProjectType::Godot)
    } else if name == "Assembly-CSharp.csproj"@ {
        Some(ProjectType::Unity)
    } else {
        None
    }
}

/// The project type suggested by a marker file extension, if any. The two
/// project-file extensions shared between .NET, Unity and Godot are
/// disambiguated by looking for the engines' own marker files in the same
/// listing; a lone `.py` file counts only when a known Python artifact
/// directory sits beside it.
pub open spec fn extension_marker(entries: Seq<Seq<char>>, name: Seq<char>) -> Option<
    ProjectType,
> {
    if seq_ends_with(name, ".uproject"@) {
        Some(ProjectType::Unreal)
    } else if seq_ends_with(name, ".csproj"@) || seq_ends_with(name, ".fsproj"@) {
        if listing_has(entries, "project.godot"@) {
            Some(ProjectType::Godot)
        } else if listing_has(entries, "Assembly-CSharp.csproj"@) {
            Some(ProjectType::Unity)
        } else {
            Some(ProjectType::DotNet)
        }
    } else if seq_ends_with(name, ".ipynb"@) {
        Some(ProjectType::Jupyter)
    } else if seq_ends_with(name, ".py"@) && listing_has_any(
        entries,
        ProjectType::Python.spec_artifact_dirs(),
    ) {
        Some(ProjectType::Python)
    } else {
        None
    }
}

/// What a single directory entry says about the directory's project type:
/// exact marker names take precedence over extensions.
pub open spec fn entry_marker(entries: Seq<Seq<char>>, name: Seq<char>) -> Option<ProjectType> {
    if exact_marker(name) is Some {
        exact_marker(name)
    } else {
        extension_marker(entries, name)
    }
}

/// First-match-wins detection over the entries from index `i` on.
pub open spec fn spec_detect_from(entries: Seq<Seq<char>>, i: int) -> Option<ProjectType>
    decreases entries.len() - i,
{
    if i < 0 || i >= entries.len() {
        None
    } else if entry_marker(entries, entries[i]) is Some {
        entry_marker(entries, entries[i])
    } else {
        spec_detect_from(entries, i + 1)
    }
}

/// The project type of a directory with the given entry names: the first
/// entry, in listing order, that is a marker decides.
pub open spec fn spec_detect(entries: Seq<Seq<char>>) -> Option<ProjectType> {
    spec_detect_from(entries, 0)
}

impl ProjectType {
    /// Detects the project type of a directory from the names of its
    /// immediate entries, in the order the directory listing gave them.
    pub fn detect_from_entries(entries: &Vec<String>) -> (r: Option<ProjectType>)
        ensures
            r == spec_detect(entries.deep_view()),
    {
        let ghost dv = entries.deep_view();
        let n = entries.len();
        let mut i: usize = 0;
        while i < n
            invariant
                dv == entries.deep_view(),
                n == entries@.len(),
                i <= n,
                spec_detect(dv) == spec_detect_from(dv, i as int),
            decreases n - i,
        {
            let e = entries[i].as_str();
            proof {
                assert(dv[i as int] == entries@[i as int]@);
                assert(e@ == dv[i as int]);
            }
            if str_eq(e, "Cargo.toml") {
                return Some(Self::Rust);
            }
            if str_eq(e, "package.json") {
                return Some(Self::Node);
            }
            if str_eq(e, "pom.xml") {
                return Some(Self::Maven);
            }
            if str_eq(e, "build.gradle") || str_eq(e, "build.gradle.kts") {
                return Some(Self::Gradle);
            }
            if str_eq(e, "CMakeLists.txt") {
                return Some(Self::CMake);
            }
            if str_eq(e, "stack.yaml") {
                return Some(Self::HaskellStack);
            }
            if str_eq(e, "build.sbt") {
                return Some(Self::ScalaSBT);
            }
            if str_eq(e, "composer.json") {
                return Some(Self::Composer);
            }
            if str_eq(e, "pubspec.yaml") {
                return Some(Self::Dart);
            }
            if str_eq(e, "mix.exs") {
                return Some(Self::Elixir);
            }
            if str_eq(e, "Package.swift") {
                return Some(Self::Swift);
            }
            if str_eq(e, "build.zig") {
                return Some(Self::Zig);
            }
            if str_eq(e, "project.godot") {
                return Some(Self::Godot);
            }
            if str_eq(e, "Assembly-CSharp.csproj") {
                return Some(Self::Unity);
            }
            if str_ends_with(e, ".uproject") {
                return Some(Self::Unreal);
            }
            if str_ends_with(e, ".csproj") || str_ends_with(e, ".fsproj") {
                if Self::has_file(entries, "project.godot") {
                    return Some(Self::Godot);
                } else if Self::has_file(entries, "Assembly-CSharp.csproj") {
                    return Some(Self::Unity);
                } else {
                    return Some(Self::DotNet);
                }
            }
            if str_ends_with(e, ".ipynb") {
                return Some(Self::Jupyter);
            }
            if str_ends_with(e, ".py") {
                let py_dirs = Self::Python.artifact_directories();
                if Self::has_any_artifact(entries, &py_dirs) {
                    return Some(Self::Python);
                }
            }
            proof {
                assert(entry_marker(dv, dv[i as int]) is None);
                assert(spec_detect_from(dv, i as int) == spec_detect_from(dv, i + 1));
            }
            i += 1;
        }
        None
    }
}

} // verus!
