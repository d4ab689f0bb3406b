use rrockerd::auth::{authorization_interceptor, validate_cert, validate_subject, AuthError};

fn make_cert(cn: Option<&str>, org: Option<&str>) -> Vec<u8> {
    let mut params = rcgen::CertificateParams::new(Vec::<String>::new()).unwrap();
    let mut dn = rcgen::DistinguishedName::new();
    if let Some(c) = cn {
        dn.push(rcgen::DnType::CommonName, c);
    }
    if let Some(o) = org {
        dn.push(rcgen::DnType::OrganizationName, o);
    }
    params.distinguished_name = dn;
    let key = rcgen::KeyPair::generate().unwrap();
    let cert = params.self_signed(&key).unwrap();
    cert.der().to_vec()
}

#[test]
fn test_missing_cert() {
    let err = authorization_interceptor(None).unwrap_err();
    assert!(matches!(err, AuthError::MissingCerts));
    assert_eq!(err.message(), "Missing certs".to_owned());
}

#[test]
fn test_good_name() {
    let der = make_cert(Some("c1"), Some("client"));
    let auth = validate_cert(&der).unwrap();
    assert_eq!(auth.id, "c1".to_owned());
    assert_eq!(auth.group, "client".to_owned());
}

#[test]
fn test_invalid_certs() {
    let missing_cn = make_cert(None, Some("client"));
    let invalid_org_name = make_cert(Some("c1"), Some("somethingelse"));
    let missing_org_name = make_cert(Some("c1"), None);

    for cert in [missing_cn, invalid_org_name, missing_org_name] {
        assert!(validate_cert(&cert).is_err());
    }
}

#[test]
fn admin_cert_is_admitted_with_admin_group() {
    let der = make_cert(Some("root-user"), Some("admin"));
    let certs = vec![der];
    let auth = authorization_interceptor(Some(&certs)).unwrap();
    assert_eq!(auth.id, "root-user".to_owned());
    assert_eq!(auth.group, "admin".to_owned());
}

#[test]
fn empty_cert_list_is_rejected() {
    let certs: Vec<Vec<u8>> = Vec::new();
    let err = authorization_interceptor(Some(&certs)).unwrap_err();
    assert!(matches!(err, AuthError::EmptyCertList));
}

#[test]
fn garbage_bytes_are_an_invalid_cert() {
    let certs = vec![vec![0x13u8, 0x37, 0x00, 0x01]];
    let err = authorization_interceptor(Some(&certs)).unwrap_err();
    assert!(matches!(err, AuthError::InvalidCert));
    assert_eq!(err.message(), "One or more certs are invalid".to_owned());
}

#[test]
fn unknown_organization_is_rejected_with_offending_value() {
    let err =
        validate_subject(Some("c1".to_owned()), Some("intruders".to_owned())).unwrap_err();
    match err {
        AuthError::InvalidOrganization(bad) => assert_eq!(bad, "intruders".to_owned()),
        _ => panic!("expected the allowlist rejection"),
    }
}

#[test]
fn subject_decisions_match_the_allowlist() {
    let admitted = validate_subject(Some("alice".to_owned()), Some("client".to_owned())).unwrap();
    assert_eq!(admitted.id, "alice".to_owned());
    assert_eq!(admitted.group, "client".to_owned());

    let admitted = validate_subject(Some("bob".to_owned()), Some("admin".to_owned())).unwrap();
    assert_eq!(admitted.group, "admin".to_owned());

    assert!(matches!(
        validate_subject(None, Some("client".to_owned())),
        Err(AuthError::MissingCommonName)
    ));
    assert!(matches!(
        validate_subject(Some("".to_owned()), Some("client".to_owned())),
        Err(AuthError::MissingCommonName)
    ));
    assert!(matches!(
        validate_subject(Some("alice".to_owned()), None),
        Err(AuthError::MissingOrganization)
    ));
}

#[test]
fn organization_rejection_has_the_documented_message() {
    let err = validate_subject(Some("c1".to_owned()), Some("guests".to_owned())).unwrap_err();
    assert_eq!(
        err.message(),
        "The organization of the provided cert is not valid".to_owned()
    );
}
