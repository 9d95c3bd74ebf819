use spacefree::errors::DeleterError;
use spacefree::pattern::build_globset;

// ========== build_globset tests ==========
#[test]
fn test_test_build_globset_simple() {
    let (gs, exclude) = build_globset(Some("*.txt"), &None).unwrap();
    assert!(gs.is_match("file.txt"));
    assert!(gs.is_match("test.txt"));
    assert!(!gs.is_match("file.md"));
    assert!(exclude.is_none());
}

#[test]
fn test_test_build_globset_with_exclude() {
    let (gs, exclude) = build_globset(Some("**/*.mrc"), &Some("**/*.txt".to_string())).unwrap();
    assert!(gs.is_match("data/file.mrc"));
    assert!(!gs.is_match("file.txt")); // exclude pattern is kept separate
    assert!(exclude.is_some());
    assert!(exclude.unwrap().is_match("file.txt"));
}

#[test]
fn test_test_build_globset_invalid_pattern() {
    let result = build_globset(Some("[invalid"), &None);
    assert!(matches!(result, Err(DeleterError::Glob(_))));
}

#[test]
fn test_test_build_globset_invalid_exclude() {
    let result = build_globset(Some("*.txt"), &Some("[invalid".to_string()));
    assert!(matches!(result, Err(DeleterError::Glob(_))));
}

// ========== globset exclude pattern tests ==========
#[test]
fn test_test_build_globset_exclude_matches() {
    let (gs, exclude) =
        build_globset(Some("**/*.txt"), &Some("**/exclude*.txt".to_string())).unwrap();
    assert!(gs.is_match("file.txt"));
    assert!(gs.is_match("exclude_me.txt")); // the accepting set alone still matches
    assert!(exclude.unwrap().is_match("exclude_me.txt")); // but the exclude set rejects it
}

#[test]
fn test_build_globset_default_matches_everything() {
    let (gs, exclude) = build_globset(None, &None).unwrap();
    assert!(gs.is_match("file.txt"));
    assert!(gs.is_match("deep/nested/file.bin"));
    assert!(exclude.is_none());
}
