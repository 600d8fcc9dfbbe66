use rvn::{MavenCoordinates, ParseError};

#[test]
fn test_parses_three_component_maven_coordinate() {
    let provided = "com.fasterxml.jackson.core:jackson-annotations:2.9.9";
    let expected = MavenCoordinates::new(
        "com.fasterxml.jackson.core",
        "jackson-annotations",
        None,
        None,
        "2.9.9",
    );

    assert_eq!(MavenCoordinates::parse(provided).unwrap(), expected);
}

#[test]
fn test_parses_four_component_maven_coordinate() {
    let provided = "com.fasterxml.jackson.core:jackson-annotations:pom:2.9.9";
    let expected = MavenCoordinates::new(
        "com.fasterxml.jackson.core",
        "jackson-annotations",
        Some("pom"),
        None,
        "2.9.9",
    );

    assert_eq!(MavenCoordinates::parse(provided).unwrap(), expected);
}

#[test]
fn test_parses_five_component_maven_coordinate() {
    let provided = "com.fasterxml.jackson.core:jackson-annotations:jar:sources:2.9.9";
    let expected = MavenCoordinates::new(
        "com.fasterxml.jackson.core",
        "jackson-annotations",
        Some("jar"),
        Some("sources"),
        "2.9.9",
    );

    assert_eq!(MavenCoordinates::parse(provided).unwrap(), expected);
}

#[test]
fn test_parse_unorthodox_maven_coordinate() {
    let provided = "io.get-coursier:coursier-cli_2.12:jar:standalone:1.1.0-M14-4";
    let expected = MavenCoordinates::new(
        "io.get-coursier",
        "coursier-cli_2.12",
        Some("jar"),
        Some("standalone"),
        "1.1.0-M14-4",
    );

    assert_eq!(MavenCoordinates::parse(provided).unwrap(), expected);
}

#[test]
fn test_segment_count_decides_optional_fields() {
    let three = MavenCoordinates::parse("g:a:1.0").unwrap();
    assert!(three.packaging.is_none());
    assert!(three.classifier.is_none());

    let four = MavenCoordinates::parse("g:a:pom:1.0").unwrap();
    assert!(four.packaging.is_some());
    assert!(four.classifier.is_none());

    let five = MavenCoordinates::parse("g:a:jar:sources:1.0").unwrap();
    assert!(five.packaging.is_some());
    assert!(five.classifier.is_some());
}

#[test]
fn test_classifier_never_present_without_packaging() {
    let inputs = [
        "g:a:1.0",
        "g:a:pom:1.0",
        "g:a:jar:sources:1.0",
        "com.fasterxml.jackson.core:jackson-annotations:2.9.9",
        "io.get-coursier:coursier-cli_2.12:jar:standalone:1.1.0-M14-4",
    ];
    for input in inputs {
        let coord = MavenCoordinates::parse(input).unwrap();
        if coord.classifier.is_some() {
            assert!(coord.packaging.is_some());
        }
    }
}

#[test]
fn test_rejects_wrong_segment_counts() {
    assert_eq!(MavenCoordinates::parse(""), Err(ParseError::Malformed));
    assert_eq!(MavenCoordinates::parse("abc"), Err(ParseError::Malformed));
    assert_eq!(MavenCoordinates::parse("g:a"), Err(ParseError::Malformed));
    assert_eq!(
        MavenCoordinates::parse("g:a:jar:sources:1.0:extra"),
        Err(ParseError::Malformed)
    );
}

#[test]
fn test_rejects_empty_segments() {
    assert_eq!(MavenCoordinates::parse("g::1.0"), Err(ParseError::Malformed));
    assert_eq!(MavenCoordinates::parse(":a:1.0"), Err(ParseError::Malformed));
    assert_eq!(MavenCoordinates::parse("g:a:"), Err(ParseError::Malformed));
    assert_eq!(MavenCoordinates::parse("g:a::sources:1.0"), Err(ParseError::Malformed));
    assert_eq!(MavenCoordinates::parse(":::"), Err(ParseError::Malformed));
}

#[test]
fn test_rejects_whitespace() {
    assert_eq!(MavenCoordinates::parse("g a:b:1.0"), Err(ParseError::Malformed));
    assert_eq!(MavenCoordinates::parse("g:a:1.0 "), Err(ParseError::Malformed));
    assert_eq!(MavenCoordinates::parse(" g:a:1.0"), Err(ParseError::Malformed));
    assert_eq!(MavenCoordinates::parse("g:a:\t1.0"), Err(ParseError::Malformed));
}

#[test]
fn test_rejects_disallowed_characters() {
    assert_eq!(MavenCoordinates::parse("g:a:1/0"), Err(ParseError::Malformed));
    assert_eq!(MavenCoordinates::parse("g:a*:1.0"), Err(ParseError::Malformed));
    assert_eq!(MavenCoordinates::parse("g!:a:1.0"), Err(ParseError::Malformed));
}

#[test]
fn test_accepts_all_word_characters() {
    let coord = MavenCoordinates::parse("A-9._z:b_B.2-x:3._-Z").unwrap();
    assert_eq!(coord.group_id, "A-9._z");
    assert_eq!(coord.artifact_id, "b_B.2-x");
    assert_eq!(coord.version, "3._-Z");
}

#[test]
fn test_parse_is_idempotent() {
    let inputs = [
        "com.fasterxml.jackson.core:jackson-annotations:2.9.9",
        "g:a:pom:1.0",
        "io.get-coursier:coursier-cli_2.12:jar:standalone:1.1.0-M14-4",
    ];
    for input in inputs {
        let first = MavenCoordinates::parse(input).unwrap();
        let second = MavenCoordinates::parse(input).unwrap();
        assert_eq!(first, second);
    }
    assert_eq!(MavenCoordinates::parse("not valid"), MavenCoordinates::parse("not valid"));
}

#[test]
fn test_render_round_trips() {
    let inputs = [
        "com.fasterxml.jackson.core:jackson-annotations:2.9.9",
        "g:a:pom:1.0",
        "g:a:jar:sources:1.0",
    ];
    for input in inputs {
        let coord = MavenCoordinates::parse(input).unwrap();
        assert_eq!(coord.render(), input);
    }
}

#[test]
fn test_new_keeps_fields_verbatim() {
    let coord = MavenCoordinates::new("g.h", "a", Some("war"), Some("javadoc"), "0.1");
    assert_eq!(coord.group_id, "g.h");
    assert_eq!(coord.artifact_id, "a");
    assert_eq!(coord.packaging.as_deref(), Some("war"));
    assert_eq!(coord.classifier.as_deref(), Some("javadoc"));
    assert_eq!(coord.version, "0.1");
}
