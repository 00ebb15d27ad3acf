//! The pinning service: credentials, headers and answers.

use inv4_git::crust::{
    basic_authorization, bearer_authorization, credentials, gateway_address, RequestPin,
    ResponseAdd, ResponsePin, ADD_URL, PIN_URL,
};
use inv4_git::error::Error;

#[test]
fn credentials_are_account_and_signature_in_base_64() {
    assert_eq!(
        credentials("acct", &[0x00, 0x0f, 0xa5, 0xff]),
        Some("c3ViLWFjY3Q6MHgwMDBmYTVmZg==".to_string())
    );
    assert_eq!(credentials("", &[]), Some("c3ViLToweA==".to_string()));
    assert_eq!(credentials("5Grwé", &[0xde]), Some("c3ViLTVHcnfDqToweGRl".to_string()));
}

#[test]
fn signature_is_written_in_lower_case_hexadecimal() {
    let all: Vec<u8> = (0..=255).collect();
    let token = credentials("a", &all).unwrap();
    let mut plain = String::from("sub-a:0x");
    for byte in &all {
        plain.push_str(&format!("{:02x}", byte));
    }
    assert_eq!(token, base64::encode(plain));
}

#[test]
fn headers_carry_the_credentials() {
    assert_eq!(basic_authorization("dG9rZW4="), "Basic dG9rZW4=");
    assert_eq!(bearer_authorization("dG9rZW4="), "Bearer dG9rZW4=");
    assert_eq!(basic_authorization(""), "Basic ");
}

#[test]
fn addresses_of_the_service() {
    assert_eq!(ADD_URL, "https://crustwebsites.net/api/v0/add");
    assert_eq!(PIN_URL, "https://pin.crustcode.com/psa/pins");
    assert_eq!(gateway_address("QmHash"), "https://crustwebsites.net/ipfs/QmHash");
}

#[test]
fn file_is_pinned_under_its_own_content_identifier() {
    let request = RequestPin::new("QmHash".to_string());
    assert_eq!(request.cid(), "QmHash");
    assert_eq!(request.name(), "QmHash");
    assert_eq!(ResponseAdd::new("QmHash".to_string()).hash(), "QmHash");
}

#[test]
fn pin_counts_when_it_is_queued() {
    assert_eq!(ResponsePin::new("queued".to_string()).accepted(), Ok(()));
    assert_eq!(ResponsePin::new("queued".to_string()).status(), "queued");
    assert_eq!(ResponsePin::new("failed".to_string()).accepted(), Err(Error::Unavailable));
    assert_eq!(ResponsePin::new("pinned".to_string()).accepted(), Err(Error::Unavailable));
    assert_eq!(ResponsePin::new("Queued".to_string()).accepted(), Err(Error::Unavailable));
    assert_eq!(ResponsePin::new("".to_string()).accepted(), Err(Error::Unavailable));
}
