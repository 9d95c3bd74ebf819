use spacefree::paths::parse_paths_from_content;

// ========== parse_paths_from_content tests ==========
#[test]
fn main_test_parse_paths_empty() {
    assert!(parse_paths_from_content("").is_empty());
    assert!(parse_paths_from_content("   ").is_empty());
    assert!(parse_paths_from_content("\n\n").is_empty());
}

#[test]
fn main_test_parse_paths_single() {
    let paths = parse_paths_from_content("J12");
    assert_eq!(paths, vec!["J12".to_string()]);
}

#[test]
fn main_test_parse_paths_space_separated() {
    let paths = parse_paths_from_content("J12 J13 J14");
    assert_eq!(
        paths,
        vec![
            "J12".to_string(),
            "J13".to_string(),
            "J14".to_string(),
        ]
    );
}

#[test]
fn main_test_parse_paths_comma_separated() {
    let paths = parse_paths_from_content("J12,J13,J14");
    assert_eq!(
        paths,
        vec![
            "J12".to_string(),
            "J13".to_string(),
            "J14".to_string(),
        ]
    );
}

#[test]
fn main_test_parse_paths_mixed_separators() {
    let paths = parse_paths_from_content("J12, J13 J14\tJ15");
    assert_eq!(
        paths,
        vec![
            "J12".to_string(),
            "J13".to_string(),
            "J14".to_string(),
            "J15".to_string(),
        ]
    );
}

#[test]
fn main_test_parse_paths_newline_separated() {
    let paths = parse_paths_from_content("J12\nJ13\nJ14");
    assert_eq!(
        paths,
        vec![
            "J12".to_string(),
            "J13".to_string(),
            "J14".to_string(),
        ]
    );
}

#[test]
fn main_test_parse_paths_dedup() {
    let paths = parse_paths_from_content("J12 J12 J13");
    assert_eq!(paths, vec!["J12".to_string(), "J13".to_string(),]);
}

#[test]
fn main_test_parse_paths_with_extra_whitespace() {
    let paths = parse_paths_from_content("  J12  ,  J13  \n  J14  ");
    assert_eq!(
        paths,
        vec![
            "J12".to_string(),
            "J13".to_string(),
            "J14".to_string(),
        ]
    );
}

#[test]
fn main_test_parse_paths_with_tabs() {
    let paths = parse_paths_from_content("J12\tJ13\tJ14");
    assert_eq!(
        paths,
        vec![
            "J12".to_string(),
            "J13".to_string(),
            "J14".to_string(),
        ]
    );
}

#[test]
fn main_test_parse_paths_multiple_commas() {
    let paths = parse_paths_from_content("J12,,,J13");
    assert_eq!(paths, vec!["J12".to_string(), "J13".to_string(),]);
}

#[test]
fn test_test_parse_paths_empty() {
    assert!(parse_paths_from_content("").is_empty());
    assert!(parse_paths_from_content("   ").is_empty());
    assert!(parse_paths_from_content("\n\n").is_empty());
}

#[test]
fn test_test_parse_paths_single() {
    let paths = parse_paths_from_content("J12");
    assert_eq!(paths, vec!["J12".to_string()]);
}

#[test]
fn test_test_parse_paths_space_separated() {
    let paths = parse_paths_from_content("J12 J13 J14");
    assert_eq!(
        paths,
        vec![
            "J12".to_string(),
            "J13".to_string(),
            "J14".to_string(),
        ]
    );
}

#[test]
fn test_test_parse_paths_comma_separated() {
    let paths = parse_paths_from_content("J12,J13,J14");
    assert_eq!(
        paths,
        vec![
            "J12".to_string(),
            "J13".to_string(),
            "J14".to_string(),
        ]
    );
}

#[test]
fn test_test_parse_paths_mixed_separators() {
    let paths = parse_paths_from_content("J12, J13 J14\tJ15");
    assert_eq!(
        paths,
        vec![
            "J12".to_string(),
            "J13".to_string(),
            "J14".to_string(),
            "J15".to_string(),
        ]
    );
}

#[test]
fn test_test_parse_paths_newline_separated() {
    let paths = parse_paths_from_content("J12\nJ13\nJ14");
    assert_eq!(
        paths,
        vec![
            "J12".to_string(),
            "J13".to_string(),
            "J14".to_string(),
        ]
    );
}

#[test]
fn test_test_parse_paths_dedup() {
    let paths = parse_paths_from_content("J12 J12 J13");
    assert_eq!(paths, vec!["J12".to_string(), "J13".to_string(),]);
}

#[test]
fn test_test_parse_paths_with_extra_whitespace() {
    let paths = parse_paths_from_content("  J12  ,  J13  \n  J14  ");
    assert_eq!(
        paths,
        vec![
            "J12".to_string(),
            "J13".to_string(),
            "J14".to_string(),
        ]
    );
}

#[test]
fn test_test_parse_paths_with_tabs() {
    let paths = parse_paths_from_content("J12\tJ13\tJ14");
    assert_eq!(
        paths,
        vec![
            "J12".to_string(),
            "J13".to_string(),
            "J14".to_string(),
        ]
    );
}

#[test]
fn test_test_parse_paths_multiple_commas() {
    let paths = parse_paths_from_content("J12,,,J13");
    assert_eq!(paths, vec!["J12".to_string(), "J13".to_string(),]);
}

// ========== line endings and odd whitespace ==========
#[test]
fn test_parse_paths_crlf_lines() {
    let paths = parse_paths_from_content("J12\r\nJ13\r\n");
    assert_eq!(paths, vec!["J12".to_string(), "J13".to_string()]);
}
