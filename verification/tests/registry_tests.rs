use token_factory::error::TokenFactoryError;
use token_factory::msg::{CreateDenomReponse, TokenFactoryMsg, TokenMsg};
use token_factory::query::{QueryAnswer, TokenFactoryQuery, TokenQuery};
use token_factory::registry::{LedgerOp, TokenFactoryModule};
use token_factory::types::{DenomUnit, Metadata};

fn some_metadata() -> Metadata {
    Metadata {
        description: Some("Awesome token, get it now!".to_string()),
        denom_units: vec![],
        base: None,
        display: Some("FUNDZ".to_string()),
        name: Some("Fundz pays".to_string()),
        symbol: Some("FUNDZ".to_string()),
    }
}

#[test]
fn mint_token() {
    let contract = "govner";
    let rcpt = "townies";
    let subdenom = "fundz";

    let mut module = TokenFactoryModule::new();

    // let's find the mapping
    let answer = module
        .query(&TokenFactoryQuery::Token(TokenQuery::FullDenom {
            creator_addr: contract.to_string(),
            subdenom: subdenom.to_string(),
        }))
        .unwrap();
    let denom = match answer {
        QueryAnswer::FullDenom(resp) => resp.denom,
        other => panic!("Unexpected answer: {:?}", other),
    };
    assert_ne!(denom, subdenom);
    assert!(denom.len() > 10);

    // prepare to mint
    let amount: u128 = 1234567;
    let msg = TokenMsg::MintTokens {
        denom: denom.to_string(),
        amount,
        mint_to_address: rcpt.to_string(),
    };

    // fails to mint token before creating it
    let err = module
        .execute(contract, TokenFactoryMsg::Token(msg))
        .unwrap_err();
    assert_eq!(err, TokenFactoryError::UnknownDenom);

    // create the token now
    let create = TokenMsg::CreateDenom {
        subdenom: subdenom.to_string(),
        metadata: Some(some_metadata()),
    };
    let created = module
        .execute(contract, TokenFactoryMsg::Token(create))
        .unwrap();
    let reply = CreateDenomReponse::from_reply_data(&created.data.unwrap()).unwrap();
    assert_eq!(reply.new_token_denom, denom);

    // now we can mint
    let msg = TokenMsg::MintTokens {
        denom: denom.to_string(),
        amount,
        mint_to_address: rcpt.to_string(),
    };
    let minted = module
        .execute(contract, TokenFactoryMsg::Token(msg))
        .unwrap();

    // the ledger is told to credit the tokens
    match minted.ledger.unwrap() {
        LedgerOp::Credit { denom: d, amount: a, to } => {
            assert_eq!(d, denom);
            assert_eq!(a, amount);
            assert_eq!(to, rcpt);
        }
        other => panic!("Unexpected ledger op: {:?}", other),
    }

    // the stored metadata is readable
    let answer = module
        .query(&TokenFactoryQuery::Token(TokenQuery::Metadata {
            denom: denom.clone(),
        }))
        .unwrap();
    match answer {
        QueryAnswer::Metadata(resp) => {
            assert_eq!(resp.metadata.unwrap().display.unwrap(), "FUNDZ");
        }
        other => panic!("Unexpected answer: {:?}", other),
    }

    // the creator is the admin
    let answer = module
        .query(&TokenFactoryQuery::Token(TokenQuery::Admin {
            denom: denom.clone(),
        }))
        .unwrap();
    match answer {
        QueryAnswer::Admin(resp) => assert_eq!(resp.admin, contract),
        other => panic!("Unexpected answer: {:?}", other),
    }

    // but the recipient may not mint more
    let msg = TokenMsg::MintTokens {
        denom: denom.to_string(),
        amount,
        mint_to_address: rcpt.to_string(),
    };
    let err = module
        .execute(rcpt, TokenFactoryMsg::Token(msg))
        .unwrap_err();
    assert_eq!(err, TokenFactoryError::NotAdmin);
}

#[test]
fn create_same_denom_twice_fails() {
    let mut module = TokenFactoryModule::new();
    module.create_denom("creator", "token", None).unwrap();
    let err = module.create_denom("creator", "token", None).unwrap_err();
    assert_eq!(err, TokenFactoryError::DenomAlreadyExists);
    // a different subdenom is still fine
    module.create_denom("creator", "token2", None).unwrap();
}

#[test]
fn create_records_denoms_by_creator_in_order() {
    let mut module = TokenFactoryModule::new();
    module.create_denom("creator", "one", None).unwrap();
    module.create_denom("creator", "two", None).unwrap();
    module.create_denom("other", "three", None).unwrap();
    assert_eq!(
        module.denoms_by_creator("creator"),
        vec!["factory/creator/one".to_string(), "factory/creator/two".to_string()]
    );
    assert_eq!(module.denoms_by_creator("other"), vec!["factory/other/three".to_string()]);
    assert_eq!(module.denoms_by_creator("nobody"), Vec::<String>::new());
}

#[test]
fn create_denom_reply_decodes() {
    let mut module = TokenFactoryModule::new();
    let data = module.create_denom("creator", "token", None).unwrap();
    let reply = CreateDenomReponse::from_reply_data(&data).unwrap();
    assert_eq!(reply.new_token_denom, "factory/creator/token");
}

#[test]
fn change_admin_success_and_handover() {
    let mut module = TokenFactoryModule::new();
    module.create_denom("creator", "token", None).unwrap();
    let denom = "factory/creator/token";

    module.change_admin("creator", denom, "newadmin").unwrap();
    assert_eq!(module.admin(denom).unwrap(), "newadmin");

    // the old admin has lost its authority
    let err = module.change_admin("creator", denom, "creator").unwrap_err();
    assert_eq!(err, TokenFactoryError::NotAdmin);

    // the new admin has gained it
    module.change_admin("newadmin", denom, "creator").unwrap();
    assert_eq!(module.admin(denom).unwrap(), "creator");
}

#[test]
fn change_admin_empty_clears_authority() {
    let mut module = TokenFactoryModule::new();
    module.create_denom("creator", "token", None).unwrap();
    let denom = "factory/creator/token";

    module.change_admin("creator", denom, "").unwrap();
    assert_eq!(module.admin(denom).unwrap(), "");

    let err = module.change_admin("creator", denom, "creator").unwrap_err();
    assert_eq!(err, TokenFactoryError::NotAdmin);
}

#[test]
fn change_admin_invalid_address() {
    let mut module = TokenFactoryModule::new();
    module.create_denom("creator", "token", None).unwrap();
    let denom = "factory/creator/token";

    // the mock identity check rejects an address this short
    let err = module.change_admin("creator", denom, "x").unwrap_err();
    assert_eq!(err, TokenFactoryError::InvalidAddress);
    assert_eq!(module.admin(denom).unwrap(), "creator");
}

#[test]
fn change_admin_unknown_denom() {
    let mut module = TokenFactoryModule::new();
    let err = module.change_admin("creator", "factory/creator/ghost", "newadmin").unwrap_err();
    assert_eq!(err, TokenFactoryError::UnknownDenom);
}

#[test]
fn mint_zero_amount_fails() {
    let mut module = TokenFactoryModule::new();
    module.create_denom("creator", "token", None).unwrap();
    let denom = "factory/creator/token";

    // zero is rejected for the admin and non-admin alike, and no ledger
    // instruction is produced
    let err = module.mint_tokens("creator", denom, 0, "someone").unwrap_err();
    assert_eq!(err, TokenFactoryError::ZeroAmount);
    let err = module.mint_tokens("stranger", denom, 0, "someone").unwrap_err();
    assert_eq!(err, TokenFactoryError::ZeroAmount);
    // even for a denom that does not exist
    let err = module.mint_tokens("creator", "factory/creator/ghost", 0, "someone").unwrap_err();
    assert_eq!(err, TokenFactoryError::ZeroAmount);
}

#[test]
fn burn_and_force_transfer_zero_amount_fail() {
    let mut module = TokenFactoryModule::new();
    module.create_denom("creator", "token", None).unwrap();
    let denom = "factory/creator/token";

    let err = module.burn_tokens("creator", denom, 0, "").unwrap_err();
    assert_eq!(err, TokenFactoryError::ZeroAmount);
    let err = module.force_transfer("creator", denom, 0, "from", "to").unwrap_err();
    assert_eq!(err, TokenFactoryError::ZeroAmount);
}

#[test]
fn msg_burn_tokens_input_address() {
    let mut module = TokenFactoryModule::new();
    module.create_denom("creator", "token", None).unwrap();
    let denom = "factory/creator/token";

    // a caller-supplied burn-from address is accepted but ignored: the
    // debit is taken from the admin itself
    let op = module.burn_tokens("creator", denom, 100, "burnfrom").unwrap();
    match op {
        LedgerOp::Debit { denom: d, amount, from } => {
            assert_eq!(d, denom);
            assert_eq!(amount, 100);
            assert_eq!(from, "creator");
        }
        other => panic!("Unexpected ledger op: {:?}", other),
    }
}

#[test]
fn msg_force_transfer_tokens_address() {
    let mut module = TokenFactoryModule::new();
    module.create_denom("creator", "token", None).unwrap();
    let denom = "factory/creator/token";

    let op = module
        .force_transfer("creator", denom, 100, "transferme", "tome")
        .unwrap();
    match op {
        LedgerOp::Move { denom: d, amount, from, to } => {
            assert_eq!(d, denom);
            assert_eq!(amount, 100);
            assert_eq!(from, "transferme");
            assert_eq!(to, "tome");
        }
        other => panic!("Unexpected ledger op: {:?}", other),
    }
}

#[test]
fn only_admin_may_operate_and_state_is_unchanged() {
    let mut module = TokenFactoryModule::new();
    module.create_denom("creator", "token", Some(some_metadata())).unwrap();
    let denom = "factory/creator/token";

    let err = module.change_admin("stranger", denom, "newadmin").unwrap_err();
    assert_eq!(err, TokenFactoryError::NotAdmin);
    let err = module.mint_tokens("stranger", denom, 5, "someone").unwrap_err();
    assert_eq!(err, TokenFactoryError::NotAdmin);
    let err = module.burn_tokens("stranger", denom, 5, "").unwrap_err();
    assert_eq!(err, TokenFactoryError::NotAdmin);
    let err = module.force_transfer("stranger", denom, 5, "a", "b").unwrap_err();
    assert_eq!(err, TokenFactoryError::NotAdmin);
    let err = module
        .set_metadata("stranger", denom, Metadata {
            description: None,
            denom_units: vec![],
            base: None,
            display: None,
            name: None,
            symbol: None,
        })
        .unwrap_err();
    assert_eq!(err, TokenFactoryError::NotAdmin);

    // a subsequent admin query still returns the original admin, and the
    // metadata is untouched
    assert_eq!(module.admin(denom).unwrap(), "creator");
    assert_eq!(module.metadata(denom).unwrap().display.as_deref(), Some("FUNDZ"));
}

#[test]
fn set_metadata_replaces_whole_record() {
    let mut module = TokenFactoryModule::new();
    module.create_denom("creator", "token", Some(some_metadata())).unwrap();
    let denom = "factory/creator/token";

    let replacement = Metadata {
        description: None,
        denom_units: vec![DenomUnit {
            denom: "utoken".to_string(),
            exponent: 0,
            aliases: vec!["microtoken".to_string()],
        }],
        base: Some("utoken".to_string()),
        display: Some("TOKEN".to_string()),
        name: None,
        symbol: None,
    };
    module.set_metadata("creator", denom, replacement).unwrap();

    let stored = module.metadata(denom).unwrap();
    assert_eq!(stored.display.as_deref(), Some("TOKEN"));
    assert_eq!(stored.description, None);
    assert_eq!(stored.denom_units.len(), 1);
    assert_eq!(stored.denom_units[0].denom, "utoken");
    assert_eq!(stored.denom_units[0].aliases, vec!["microtoken".to_string()]);
}

#[test]
fn set_metadata_on_denom_without_metadata() {
    let mut module = TokenFactoryModule::new();
    module.create_denom("creator", "token", None).unwrap();
    let denom = "factory/creator/token";

    assert!(module.metadata(denom).is_none());
    module.set_metadata("creator", denom, some_metadata()).unwrap();
    assert_eq!(module.metadata(denom).unwrap().display.as_deref(), Some("FUNDZ"));
}

#[test]
fn set_metadata_unknown_denom() {
    let mut module = TokenFactoryModule::new();
    let err = module
        .set_metadata("creator", "factory/creator/ghost", some_metadata())
        .unwrap_err();
    assert_eq!(err, TokenFactoryError::UnknownDenom);
}

#[test]
fn params_query_is_unimplemented() {
    let module = TokenFactoryModule::new();
    let err = module
        .query(&TokenFactoryQuery::Token(TokenQuery::Params {}))
        .unwrap_err();
    assert_eq!(err, TokenFactoryError::Unimplemented);
}

#[test]
fn denoms_by_creator_query() {
    let mut module = TokenFactoryModule::new();
    module.create_denom("creator", "token", None).unwrap();
    let answer = module
        .query(&TokenFactoryQuery::Token(TokenQuery::DenomsByCreator {
            creator: "creator".to_string(),
        }))
        .unwrap();
    match answer {
        QueryAnswer::DenomsByCreator(resp) => {
            assert_eq!(resp.denoms, vec!["factory/creator/token".to_string()]);
        }
        other => panic!("Unexpected answer: {:?}", other),
    }
}

#[test]
fn msg_helpers_build_expected_commands() {
    let msg = TokenMsg::mint_contract_tokens("factory/c/t".to_string(), 7, "rcpt".to_string());
    match msg {
        TokenMsg::MintTokens { denom, amount, mint_to_address } => {
            assert_eq!(denom, "factory/c/t");
            assert_eq!(amount, 7);
            assert_eq!(mint_to_address, "rcpt");
        }
        other => panic!("Unexpected message: {:?}", other),
    }

    // the burn helper discards the burn-from address
    let msg = TokenMsg::burn_contract_tokens("factory/c/t".to_string(), 7, "burner".to_string());
    match msg {
        TokenMsg::BurnTokens { denom, amount, burn_from_address } => {
            assert_eq!(denom, "factory/c/t");
            assert_eq!(amount, 7);
            assert_eq!(burn_from_address, "");
        }
        other => panic!("Unexpected message: {:?}", other),
    }
}
