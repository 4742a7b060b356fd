use risdb::frontend::certificates::{
    first_key, load_certs, load_private_key, KeyError, LoadError, OpenFailure, PrivateKey,
};

fn section(label: &str, body: &str) -> String {
    format!("-----BEGIN {}-----\n{}\n-----END {}-----\n", label, body, label)
}

fn file(sections: &[String]) -> Result<Vec<u8>, OpenFailure> {
    Ok(sections.concat().into_bytes())
}

fn missing() -> Result<Vec<u8>, OpenFailure> {
    Err(OpenFailure { path: "\"a.pem\"".to_owned(), error: "not there".to_owned() })
}

#[test]
fn certificates_are_read_in_order() {
    let certs = load_certs(file(&[
        "some text\n".to_owned(),
        section("CERTIFICATE", "AQID"),
        section("PUBLIC KEY", "BwgJ"),
        section("CERTIFICATE", "BAUG"),
    ]));
    assert_eq!(certs.unwrap(), vec![vec![1, 2, 3], vec![4, 5, 6]]);
    assert!(load_certs(file(&[])).unwrap().is_empty());
}

#[test]
fn broken_files_are_reported() {
    let broken = "-----BEGIN CERTIFICATE-----\nAQID\n".to_owned();
    assert!(matches!(load_certs(file(&[broken.clone()])), Err(LoadError::FailedToParse(_))));
    assert!(matches!(
        load_private_key(file(&[broken])),
        Err(KeyError::FailedToLoad(LoadError::FailedToParse(_)))
    ));
}

#[test]
fn files_that_cannot_be_opened_are_named() {
    let text = "failed to open \"a.pem\": not there";
    assert!(matches!(load_certs(missing()), Err(LoadError::FailedToOpen(shown)) if shown == text));
    assert!(matches!(
        load_private_key(missing()),
        Err(KeyError::FailedToLoad(LoadError::FailedToOpen(shown))) if shown == text
    ));
}

#[test]
fn the_first_key_is_taken_in_its_form() {
    let key = |label: &str| {
        let certificate = section("CERTIFICATE", "AQID");
        load_private_key(file(&[certificate, section(label, "BAUG"), section(label, "BwgJ")]))
    };
    assert!(
        matches!(key("EC PRIVATE KEY"), Ok(PrivateKey::Sec1(bytes)) if bytes == vec![4, 5, 6])
    );
    assert!(matches!(key("PRIVATE KEY"), Ok(PrivateKey::Pkcs8(bytes)) if bytes == vec![4, 5, 6]));
    assert!(
        matches!(key("RSA PRIVATE KEY"), Ok(PrivateKey::Pkcs1(bytes)) if bytes == vec![4, 5, 6])
    );
}

#[test]
fn a_file_without_a_key_is_no_broken_file() {
    let result = load_private_key(file(&[section("CERTIFICATE", "AQID")]));
    assert!(matches!(result, Err(KeyError::NoPrivateKey)));
    assert!(matches!(first_key(None), Err(KeyError::NoPrivateKey)));
    assert!(matches!(first_key(Some(PrivateKey::Sec1(vec![7]))), Ok(PrivateKey::Sec1(_))));
}
