//! Tests for project-type names, the artifact rule table, and detection from
//! directory listings.

use devdust_core::ProjectType;

fn listing(names: &[&str]) -> Vec<String> {
    names.iter().map(|n| n.to_string()).collect()
}

#[test]
fn test_project_type_names() {
    assert_eq!(ProjectType::Rust.name(), "Rust");
    assert_eq!(ProjectType::Node.name(), "Node.js");
    assert_eq!(ProjectType::Python.name(), "Python");
}

#[test]
fn more_project_type_names() {
    assert_eq!(ProjectType::DotNet.name(), ".NET");
    assert_eq!(ProjectType::Unreal.name(), "Unreal Engine");
    assert_eq!(ProjectType::HaskellStack.name(), "Haskell Stack");
    assert_eq!(ProjectType::Composer.name(), "PHP Composer");
    assert_eq!(ProjectType::Jupyter.name(), "Jupyter");
}

#[test]
fn artifact_directories_of_known_types() {
    assert_eq!(ProjectType::Rust.artifact_directories(), vec!["target", ".xwin-cache"]);
    assert_eq!(ProjectType::Maven.artifact_directories(), vec!["target"]);
    assert_eq!(
        ProjectType::Node.artifact_directories(),
        vec!["node_modules", ".next", ".nuxt", "dist", "build", ".angular"]
    );
    assert_eq!(ProjectType::Zig.artifact_directories(), vec!["zig-cache", "zig-out"]);
    assert_eq!(ProjectType::Python.artifact_directories().len(), 11);
}

#[test]
fn detects_exact_markers() {
    let cases: &[(&str, ProjectType)] = &[
        ("Cargo.toml", ProjectType::Rust),
        ("package.json", ProjectType::Node),
        ("pom.xml", ProjectType::Maven),
        ("build.gradle", ProjectType::Gradle),
        ("build.gradle.kts", ProjectType::Gradle),
        ("CMakeLists.txt", ProjectType::CMake),
        ("stack.yaml", ProjectType::HaskellStack),
        ("build.sbt", ProjectType::ScalaSBT),
        ("composer.json", ProjectType::Composer),
        ("pubspec.yaml", ProjectType::Dart),
        ("mix.exs", ProjectType::Elixir),
        ("Package.swift", ProjectType::Swift),
        ("build.zig", ProjectType::Zig),
        ("project.godot", ProjectType::Godot),
        ("Assembly-CSharp.csproj", ProjectType::Unity),
    ];
    for (marker, expected) in cases {
        let entries = listing(&["README.md", marker, "src"]);
        assert_eq!(ProjectType::detect_from_entries(&entries), Some(*expected));
    }
}

#[test]
fn detects_by_extension() {
    let entries = listing(&["MyGame.uproject", "Content"]);
    assert_eq!(ProjectType::detect_from_entries(&entries), Some(ProjectType::Unreal));

    let entries = listing(&["notes.ipynb"]);
    assert_eq!(ProjectType::detect_from_entries(&entries), Some(ProjectType::Jupyter));

    let entries = listing(&["App.csproj", "Program.cs"]);
    assert_eq!(ProjectType::detect_from_entries(&entries), Some(ProjectType::DotNet));

    let entries = listing(&["App.fsproj", "Program.fs"]);
    assert_eq!(ProjectType::detect_from_entries(&entries), Some(ProjectType::DotNet));
}

#[test]
fn disambiguates_shared_project_extension() {
    // A .csproj beside Godot's own marker belongs to Godot.
    let entries = listing(&["App.csproj", "project.godot"]);
    assert_eq!(ProjectType::detect_from_entries(&entries), Some(ProjectType::Godot));

    // A .csproj beside Unity's generated project belongs to Unity, even when
    // the Unity marker comes later in the listing.
    let entries = listing(&["App.csproj", "Assembly-CSharp.csproj"]);
    assert_eq!(ProjectType::detect_from_entries(&entries), Some(ProjectType::Unity));
}

#[test]
fn detects_python_only_with_artifacts() {
    let entries = listing(&["main.py", "helper.py"]);
    assert_eq!(ProjectType::detect_from_entries(&entries), None);

    let entries = listing(&["main.py", "__pycache__"]);
    assert_eq!(ProjectType::detect_from_entries(&entries), Some(ProjectType::Python));

    let entries = listing(&["main.py", ".venv"]);
    assert_eq!(ProjectType::detect_from_entries(&entries), Some(ProjectType::Python));
}

#[test]
fn first_marker_in_listing_order_wins() {
    let entries = listing(&["package.json", "Cargo.toml"]);
    assert_eq!(ProjectType::detect_from_entries(&entries), Some(ProjectType::Node));

    let entries = listing(&["Cargo.toml", "package.json"]);
    assert_eq!(ProjectType::detect_from_entries(&entries), Some(ProjectType::Rust));
}

#[test]
fn detects_nothing_in_plain_directories() {
    assert_eq!(ProjectType::detect_from_entries(&listing(&[])), None);
    let entries = listing(&["README.md", "docs", "LICENSE"]);
    assert_eq!(ProjectType::detect_from_entries(&entries), None);
    // Markers match whole names only.
    let entries = listing(&["Cargo.toml.bak", "mypackage.json"]);
    assert_eq!(ProjectType::detect_from_entries(&entries), None);
}

#[test]
fn listing_membership_helpers() {
    let entries = listing(&["a.txt", "project.godot"]);
    assert!(ProjectType::has_file(&entries, "project.godot"));
    assert!(!ProjectType::has_file(&entries, "Cargo.toml"));
    let artifacts = vec!["target", ".xwin-cache"];
    assert!(!ProjectType::has_any_artifact(&entries, &artifacts));
    let entries = listing(&["a.txt", ".xwin-cache"]);
    assert!(ProjectType::has_any_artifact(&entries, &artifacts));
}
