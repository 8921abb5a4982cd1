use blightmud::net::tls::CertificateValidation;

#[test]
fn a_verify_flag_turns_into_a_validation_setting() {
    assert_eq!(CertificateValidation::from(true), CertificateValidation::Enabled);
    assert_eq!(CertificateValidation::from(false), CertificateValidation::DangerousDisabled);
    assert_eq!(CertificateValidation::from_flag(true), CertificateValidation::Enabled);
}

#[test]
fn the_setting_shows_whether_certificates_are_checked() {
    assert_eq!(CertificateValidation::Enabled.to_string(), "true");
    assert_eq!(CertificateValidation::DangerousDisabled.to_string(), "false");
}
