use token_factory::denom::{full_denom, validate_denom};
use token_factory::error::TokenFactoryError;
use token_factory::query::{QueryAnswer, TokenFactoryQuery, TokenQuery};
use token_factory::registry::TokenFactoryModule;

const DENOM_NAME: &str = "mydenom";
const DENOM_PREFIX: &str = "factory";
const MOCK_CONTRACT_ADDR: &str = "cosmos2contract";

#[test]
fn query_get_denom() {
    let module = TokenFactoryModule::new();
    let get_denom_query = TokenFactoryQuery::Token(TokenQuery::FullDenom {
        creator_addr: String::from(MOCK_CONTRACT_ADDR),
        subdenom: String::from(DENOM_NAME),
    });
    let response = module.query(&get_denom_query).unwrap();
    match response {
        QueryAnswer::FullDenom(resp) => {
            assert_eq!(
                format!("{}/{}/{}", DENOM_PREFIX, MOCK_CONTRACT_ADDR, DENOM_NAME),
                resp.denom
            );
        }
        other => panic!("Unexpected answer: {:?}", other),
    }
}

#[test]
fn msg_validate_denom_too_many_parts_valid() {
    let full_denom_name = format!("{}/{}/{}", DENOM_PREFIX, MOCK_CONTRACT_ADDR, DENOM_NAME);
    validate_denom(&full_denom_name).unwrap()
}

#[test]
fn msg_validate_denom_too_many_parts_invalid() {
    let full_denom_name = format!("{}/{}/{}/invalid", DENOM_PREFIX, MOCK_CONTRACT_ADDR, DENOM_NAME);

    let err = validate_denom(&full_denom_name).unwrap_err();

    let expected_error = TokenFactoryError::InvalidDenom {
        denom: full_denom_name,
        message: String::from("denom must have 3 parts separated by /, had 4"),
    };

    assert_eq!(expected_error, err);
}

#[test]
fn msg_validate_denom_not_enough_parts_invalid() {
    let full_denom_name = format!("{}/{}", DENOM_PREFIX, MOCK_CONTRACT_ADDR);

    let err = validate_denom(&full_denom_name).unwrap_err();

    let expected_error = TokenFactoryError::InvalidDenom {
        denom: full_denom_name,
        message: String::from("denom must have 3 parts separated by /, had 2"),
    };

    assert_eq!(expected_error, err);
}

#[test]
fn msg_validate_denom_denom_prefix_invalid() {
    let full_denom_name = format!("{}/{}/{}", "invalid", MOCK_CONTRACT_ADDR, DENOM_NAME);

    let err = validate_denom(&full_denom_name).unwrap_err();

    let expected_error = TokenFactoryError::InvalidDenom {
        denom: full_denom_name,
        message: String::from("prefix must be 'factory', was invalid"),
    };

    assert_eq!(expected_error, err);
}

#[test]
fn msg_change_admin_invalid_denom() {
    // A pre-assembled denom with four parts is rejected before any admin
    // change is considered.
    let full_denom_name = format!("{}/{}/{}/invalid", DENOM_PREFIX, MOCK_CONTRACT_ADDR, DENOM_NAME);

    let err = validate_denom(&full_denom_name).unwrap_err();

    let expected_error = TokenFactoryError::InvalidDenom {
        denom: full_denom_name,
        message: String::from("denom must have 3 parts separated by /, had 4"),
    };

    assert_eq!(expected_error, err);
}

#[test]
fn msg_mint_invalid_denom() {
    // A pre-assembled denom with two parts is rejected before any mint is
    // considered.
    let full_denom_name = format!("{}/{}", DENOM_PREFIX, MOCK_CONTRACT_ADDR);

    let err = validate_denom(&full_denom_name).unwrap_err();

    let expected_error = TokenFactoryError::InvalidDenom {
        denom: full_denom_name,
        message: String::from("denom must have 3 parts separated by /, had 2"),
    };

    assert_eq!(expected_error, err);
}

#[test]
fn validate_denom_case_insensitive_prefix() {
    validate_denom("FACTORY/creator/token").unwrap();
    validate_denom("Factory/creator/token").unwrap();
}

#[test]
fn full_denom_accepts_empty_subdenom() {
    assert_eq!(full_denom("creator", "").unwrap(), "factory/creator/");
}

#[test]
fn full_denom_rejects_slash_in_creator() {
    let err = full_denom("crea/tor", "token").unwrap_err();
    match err {
        TokenFactoryError::InvalidDenom { denom, .. } => {
            assert_eq!(denom, "factory/crea/tor/token");
        }
        other => panic!("Unexpected error: {:?}", other),
    }
}

#[test]
fn full_denom_rejects_long_subdenom() {
    let long_sub: String = std::iter::repeat('x').take(45).collect();
    assert!(full_denom("creator", &long_sub).is_err());
    let ok_sub: String = std::iter::repeat('x').take(44).collect();
    assert!(full_denom("creator", &ok_sub).is_ok());
}

#[test]
fn full_denom_rejects_long_creator() {
    let long_creator: String = std::iter::repeat('c').take(76).collect();
    assert!(full_denom(&long_creator, "token").is_err());
    let ok_creator: String = std::iter::repeat('c').take(75).collect();
    assert!(full_denom(&ok_creator, "token").is_ok());
}

#[test]
fn full_denom_accepts_the_128_byte_cap() {
    // 75-byte creator and 44-byte subdenom land exactly on the cap.
    let creator: String = std::iter::repeat('c').take(75).collect();
    let sub: String = std::iter::repeat('x').take(44).collect();
    let denom = full_denom(&creator, &sub).unwrap();
    assert_eq!(denom.len(), 128);
}

#[test]
fn validate_denom_rejects_overlong_parts() {
    let long_sub: String = std::iter::repeat('x').take(45).collect();
    let name = format!("factory/creator/{}", long_sub);
    let err = validate_denom(&name).unwrap_err();
    match err {
        TokenFactoryError::InvalidDenom { denom, message } => {
            assert_eq!(denom, name);
            assert_eq!(message, "invalid full denom");
        }
        other => panic!("Unexpected error: {:?}", other),
    }
}
