use rvn::checksum::Algorithm;
use rvn::fetch::{classify_response, FetchError};
use rvn::MavenCoordinates;

#[test]
fn test_checksum_url_for_classified_coordinate() {
    let coord =
        MavenCoordinates::parse("com.fasterxml.jackson.core:jackson-annotations:jar:sources:2.9.9")
            .unwrap();
    let url = coord.checksum_url("https://repo1.maven.org/maven2", &Algorithm::Sha1);
    assert_eq!(
        url,
        "https://repo1.maven.org/maven2/com/fasterxml/jackson/core/jackson-annotations/2.9.9/jackson-annotations-2.9.9-sources.jar.sha1"
    );
}

#[test]
fn test_checksum_url_defaults_packaging_to_jar() {
    let coord = MavenCoordinates::parse("com.fasterxml.jackson.core:jackson-annotations:2.9.9")
        .unwrap();
    let url = coord.checksum_url("https://repo1.maven.org/maven2", &Algorithm::Sha256);
    assert_eq!(
        url,
        "https://repo1.maven.org/maven2/com/fasterxml/jackson/core/jackson-annotations/2.9.9/jackson-annotations-2.9.9.jar.sha256"
    );
}

#[test]
fn test_checksum_url_uses_explicit_packaging() {
    let coord = MavenCoordinates::parse("g:a:pom:1.0").unwrap();
    let url = coord.checksum_url("https://repo.example/m2", &Algorithm::Md5);
    assert_eq!(url, "https://repo.example/m2/g/a/1.0/a-1.0.pom.md5");
}

#[test]
fn test_checksum_url_joins_with_exactly_one_slash() {
    let coord = MavenCoordinates::parse("g.h:a:1.0").unwrap();
    let with_slash = coord.checksum_url("https://repo.example/m2/", &Algorithm::Sha1);
    let without_slash = coord.checksum_url("https://repo.example/m2", &Algorithm::Sha1);
    assert_eq!(with_slash, without_slash);
    assert_eq!(with_slash, "https://repo.example/m2/g/h/a/1.0/a-1.0.jar.sha1");
}

#[test]
fn test_classify_response_hands_back_success_body() {
    let body = "4ac77aa5799fcf00a9cde00cd7da4d08bdc038ff".to_string();
    assert_eq!(classify_response(200, body.clone()), Ok(body));
    assert_eq!(classify_response(204, String::new()), Ok(String::new()));
}

#[test]
fn test_classify_response_rejects_other_statuses() {
    assert_eq!(
        classify_response(404, String::new()),
        Err(FetchError::HttpStatus(404))
    );
    assert_eq!(
        classify_response(500, "oops".to_string()),
        Err(FetchError::HttpStatus(500))
    );
    assert_eq!(
        classify_response(301, String::new()),
        Err(FetchError::HttpStatus(301))
    );
    assert_eq!(
        classify_response(199, String::new()),
        Err(FetchError::HttpStatus(199))
    );
}

#[test]
fn test_not_found_error_references_the_coordinate() {
    let provided = "com.fasterxml.jackson.core:jackson-annotations:2.9.9";
    let coord = MavenCoordinates::parse(provided).unwrap();
    let outcome = classify_response(404, String::new());
    assert_eq!(outcome, Err(FetchError::HttpStatus(404)));
    let message = coord.not_found_message();
    assert_eq!(message, format!("Couldn't find artifact: {}", provided));
    assert!(message.contains(provided));
    assert_eq!(FetchError::HttpStatus(404).message(&coord), message);
}

#[test]
fn test_other_statuses_are_reported_with_their_code() {
    let coord = MavenCoordinates::parse("g:a:1.0").unwrap();
    assert_eq!(
        FetchError::HttpStatus(500).message(&coord),
        "Server rejected request with HTTP status 500"
    );
    assert_eq!(
        FetchError::HttpStatus(301).message(&coord),
        "Server rejected request with HTTP status 301"
    );
    assert_eq!(
        FetchError::HttpStatus(7).message(&coord),
        "Server rejected request with HTTP status 7"
    );
}
