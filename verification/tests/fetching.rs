use grm::fetch::{choose_credential, Credential};

#[test]
fn credential_is_the_first_that_is_allowed() {
    assert_eq!(choose_credential(true, true, true), Credential::Default);
    assert_eq!(choose_credential(true, false, false), Credential::Default);
    assert_eq!(choose_credential(false, true, true), Credential::Username);
    assert_eq!(choose_credential(false, true, false), Credential::Username);
    assert_eq!(choose_credential(false, false, true), Credential::SshAgent);
    assert_eq!(choose_credential(false, false, false), Credential::Helper);
}
