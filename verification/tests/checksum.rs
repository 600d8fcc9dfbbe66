use rvn::checksum::{Algorithm, Checksum};

#[test]
fn test_algorithm_names() {
    assert_eq!(Algorithm::Md5.name(), "md5");
    assert_eq!(Algorithm::Sha1.name(), "sha1");
    assert_eq!(Algorithm::Sha256.name(), "sha256");
    assert_eq!(Algorithm::Sha384.name(), "sha384");
    assert_eq!(Algorithm::Sha512.name(), "sha512");
}

#[test]
fn test_algorithm_from_name_accepts_the_five_names() {
    assert_eq!(Algorithm::from_name("md5"), Some(Algorithm::Md5));
    assert_eq!(Algorithm::from_name("sha1"), Some(Algorithm::Sha1));
    assert_eq!(Algorithm::from_name("sha256"), Some(Algorithm::Sha256));
    assert_eq!(Algorithm::from_name("sha384"), Some(Algorithm::Sha384));
    assert_eq!(Algorithm::from_name("sha512"), Some(Algorithm::Sha512));
}

#[test]
fn test_algorithm_from_name_rejects_unknown_names() {
    assert_eq!(Algorithm::from_name(""), None);
    assert_eq!(Algorithm::from_name("sha-1"), None);
    assert_eq!(Algorithm::from_name("SHA1"), None);
    assert_eq!(Algorithm::from_name("md4"), None);
    assert_eq!(Algorithm::from_name("sha1 "), None);
}

#[test]
fn test_algorithm_round_trips_through_its_name() {
    let algorithms = [
        Algorithm::Md5,
        Algorithm::Sha1,
        Algorithm::Sha256,
        Algorithm::Sha384,
        Algorithm::Sha512,
    ];
    for algorithm in algorithms {
        assert_eq!(Algorithm::from_name(algorithm.name()), Some(algorithm));
    }
}

#[test]
fn test_algorithm_variants() {
    assert_eq!(Algorithm::variants(), vec!["md5", "sha1", "sha256", "sha384", "sha512"]);
}

#[test]
fn test_checksum_new() {
    let checksum = Checksum::new(Algorithm::Sha1, "4ac77aa5799fcf00a9cde00cd7da4d08bdc038ff");

    assert_eq!(checksum.algorithm, Algorithm::Sha1);
    assert_eq!(checksum.value, "4ac77aa5799fcf00a9cde00cd7da4d08bdc038ff");
}

#[test]
fn test_checksum_render() {
    let checksum = Checksum::new(Algorithm::Sha256, "deadbeef");
    assert_eq!(checksum.render(), "sha256:deadbeef");
}
