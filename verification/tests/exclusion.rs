use git_logue::exclusion::init_ignore_patterns;
use git_logue::exclusion::should_exclude_file;
use git_logue::exclusion::ExclusionPolicy;
use git_logue::exclusion::PatternError;

#[test]
fn test_should_exclude_lock_files() {
    // JavaScript/Node.js
    assert!(should_exclude_file("package-lock.json"));
    assert!(should_exclude_file("yarn.lock"));
    assert!(should_exclude_file("pnpm-lock.yaml"));
    // Rust
    assert!(should_exclude_file("Cargo.lock"));
    // Ruby
    assert!(should_exclude_file("Gemfile.lock"));
    // Python
    assert!(should_exclude_file("poetry.lock"));
    assert!(should_exclude_file("Pipfile.lock"));
    // PHP
    assert!(should_exclude_file("composer.lock"));
    // Go
    assert!(should_exclude_file("go.sum"));
    // Swift
    assert!(should_exclude_file("Package.resolved"));
    // Dart/Flutter
    assert!(should_exclude_file("pubspec.lock"));
    // .NET/C#
    assert!(should_exclude_file("packages.lock.json"));
    assert!(should_exclude_file("project.assets.json"));
    // Elixir
    assert!(should_exclude_file("mix.lock"));
    // Java/Gradle
    assert!(should_exclude_file("gradle.lockfile"));
    assert!(should_exclude_file("buildscript-gradle.lockfile"));
    // Scala
    assert!(should_exclude_file("build.sbt.lock"));
    // Bazel
    assert!(should_exclude_file("MODULE.bazel.lock"));
}

#[test]
fn test_should_exclude_lock_files_with_path() {
    assert!(should_exclude_file("path/to/package-lock.json"));
    assert!(should_exclude_file("src/Cargo.lock"));
    assert!(should_exclude_file("frontend/yarn.lock"));
}

#[test]
fn test_should_exclude_minified_files() {
    assert!(should_exclude_file("bundle.min.js"));
    assert!(should_exclude_file("app.min.css"));
    assert!(should_exclude_file("vendor.bundle.js"));
    assert!(should_exclude_file("styles.bundle.css"));
    // Source maps
    assert!(should_exclude_file("app.js.map"));
    assert!(should_exclude_file("styles.css.map"));
    assert!(should_exclude_file("types.d.ts.map"));
}

#[test]
fn test_should_exclude_minified_files_with_path() {
    assert!(should_exclude_file("dist/bundle.min.js"));
    assert!(should_exclude_file("public/assets/app.min.css"));
}

#[test]
fn test_should_not_exclude_normal_files() {
    assert!(!should_exclude_file("src/main.rs"));
    assert!(!should_exclude_file("package.json"));
    assert!(!should_exclude_file("Cargo.toml"));
    assert!(!should_exclude_file("app.js"));
    assert!(!should_exclude_file("styles.css"));
    assert!(!should_exclude_file("lock.txt"));
    assert!(!should_exclude_file("minify.rs"));
}

#[test]
fn test_should_exclude_snapshot_files() {
    assert!(should_exclude_file("component.test.ts.snap"));
    assert!(should_exclude_file("tests/__snapshots__/test.snap"));
    assert!(should_exclude_file("__snapshots__/component.snap"));
    assert!(should_exclude_file("src/__snapshots__/app.test.js.snap"));
}

#[test]
fn test_user_patterns_integration() {
    let patterns = vec![
        "*.svg".to_string(),
        "*.ipynb".to_string(),
        "dist/**".to_string(),
        "node_modules/**".to_string(),
    ];

    let mut policy = ExclusionPolicy::new();
    let _ = init_ignore_patterns(&mut policy, &patterns);

    // Test file extension patterns
    assert!(policy.should_exclude("diagram.svg"));
    assert!(policy.should_exclude("path/to/notebook.ipynb"));
    assert!(policy.should_exclude("assets/icon.svg"));
    assert!(!policy.should_exclude("image.png"));
    assert!(!policy.should_exclude("script.py"));

    // Test directory patterns
    assert!(policy.should_exclude("dist/bundle.js"));
    assert!(policy.should_exclude("dist/css/main.css"));
    assert!(policy.should_exclude("node_modules/pkg/index.js"));
    assert!(!policy.should_exclude("src/index.js"));
}

#[test]
fn test_empty_patterns() {
    let patterns: Vec<String> = vec![];
    let mut policy = ExclusionPolicy::new();
    assert!(init_ignore_patterns(&mut policy, &patterns).is_ok());
}

#[test]
fn test_invalid_pattern() {
    let patterns = vec!["[invalid".to_string()];
    let mut policy = ExclusionPolicy::new();
    assert!(init_ignore_patterns(&mut policy, &patterns).is_err());
}

#[test]
fn empty_patterns_leave_the_policy_open() {
    let mut policy = ExclusionPolicy::new();
    assert!(init_ignore_patterns(&mut policy, &[]).is_ok());
    assert!(!policy.is_initialized());
    assert!(init_ignore_patterns(&mut policy, &["*.svg".to_string()]).is_ok());
    assert!(policy.is_initialized());
    assert!(policy.should_exclude("a.svg"));
}

#[test]
fn second_initialization_is_refused() {
    let mut policy = ExclusionPolicy::new();
    assert!(init_ignore_patterns(&mut policy, &["*.svg".to_string()]).is_ok());
    let second = init_ignore_patterns(&mut policy, &["*.png".to_string()]);
    assert_eq!(second, Err(PatternError::AlreadyInitialized));
    assert_eq!(
        PatternError::AlreadyInitialized.message(),
        "User patterns already initialized"
    );
    assert!(policy.should_exclude("a.svg"));
    assert!(!policy.should_exclude("a.png"));
    assert!(init_ignore_patterns(&mut policy, &[]).is_ok());
}

#[test]
fn invalid_pattern_is_reported_before_the_conflict() {
    let mut policy = ExclusionPolicy::new();
    assert!(init_ignore_patterns(&mut policy, &["*.svg".to_string()]).is_ok());
    let res = init_ignore_patterns(&mut policy, &["*.png".to_string(), "[invalid".to_string()]);
    match res {
        Err(PatternError::InvalidPattern { pattern, reason }) => {
            assert_eq!(pattern, "[invalid");
            let error = PatternError::InvalidPattern { pattern, reason };
            assert!(error.message().starts_with("Invalid glob pattern: [invalid: "));
        }
        other => panic!("unexpected result: {:?}", other),
    }
}

#[test]
fn policy_without_patterns_applies_the_builtin_rules() {
    let policy = ExclusionPolicy::new();
    for path in ["package-lock.json", "src/Cargo.lock", "dist/bundle.min.js", "a/__snapshots__/x.snap"] {
        assert!(policy.should_exclude(path));
        assert!(should_exclude_file(path));
    }
    for path in ["src/main.rs", "package.json", "app.js"] {
        assert!(!policy.should_exclude(path));
        assert!(!should_exclude_file(path));
    }
}

#[test]
fn exclusion_is_repeatable() {
    let mut policy = ExclusionPolicy::new();
    assert!(init_ignore_patterns(&mut policy, &["docs/**".to_string()]).is_ok());
    for path in ["docs/a.md", "src/a.md", "yarn.lock", "x/y.min.js"] {
        assert_eq!(policy.should_exclude(path), policy.should_exclude(path));
        assert_eq!(should_exclude_file(path), should_exclude_file(path));
    }
}

#[test]
fn lock_file_names_match_the_whole_file_name_only() {
    assert!(!should_exclude_file("my-yarn.lock"));
    assert!(!should_exclude_file("yarn.lock/readme"));
    assert!(!should_exclude_file("Cargo.lock.bak"));
    assert!(should_exclude_file("a/b/c/go.sum"));
    assert!(!should_exclude_file(""));
}

#[test]
fn marks_match_anywhere_in_the_path() {
    assert!(should_exclude_file("__snapshots__/readme.md"));
    assert!(should_exclude_file("a.min.js/readme.md"));
    assert!(should_exclude_file("x.snapshot"));
    assert!(!should_exclude_file("snap"));
}
