//! Commands accepted by the registry, and the typed reply of a creation.

use vstd::prelude::*;

use crate::decode;
use crate::error::DecodeError;
use crate::types::Metadata;

verus! {

/// A top-level custom message: room for other custom variants beside the
/// token factory's own.
#[derive(Debug)]
pub enum TokenFactoryMsg {
    Token(TokenMsg),
}

/// One command per registry operation, carrying an authenticated sender's
/// arguments as plain data.
#[derive(Debug)]
pub enum TokenMsg {
    /// Create the denom `factory/{sender}/{subdenom}`, optionally with
    /// metadata. The (sender, subdenom) pair must be unique.
    CreateDenom { subdenom: String, metadata: Option<Metadata> },
    /// Replace the denom's admin. An empty new admin clears future
    /// authority.
    ChangeAdmin { denom: String, new_admin_address: String },
    /// Credit freshly minted tokens of an owned denom to a recipient.
    MintTokens { denom: String, amount: u128, mint_to_address: String },
    /// Burn tokens of an owned denom. The burn-from address is currently
    /// restricted to the admin itself.
    BurnTokens { denom: String, amount: u128, burn_from_address: String },
    /// Move tokens of an owned denom between two identities.
    ForceTransfer { denom: String, amount: u128, from_address: String, to_address: String },
    /// Fully replace the denom's metadata record.
    SetMetadata { denom: String, metadata: Metadata },
}

impl TokenMsg {
    /// A mint command with the given arguments.
    pub fn mint_contract_tokens(denom: String, amount: u128, mint_to_address: String) -> (r: Self)
        ensures
            (r matches TokenMsg::MintTokens { denom: d, amount: a, mint_to_address: m } && d
                == denom && a == amount && m == mint_to_address),
    {
        TokenMsg::MintTokens { denom, amount, mint_to_address }
    }

    /// A burn command. The supplied burn-from address is discarded and
    /// replaced with the empty string: burning from other accounts is
    /// currently disabled.
    pub fn burn_contract_tokens(denom: String, amount: u128, _burn_from_address: String) -> (r:
        Self)
        ensures
            (r matches TokenMsg::BurnTokens { denom: d, amount: a, burn_from_address: b } && d
                == denom && a == amount && b@ == Seq::<char>::empty()),
    {
        TokenMsg::BurnTokens { denom, amount, burn_from_address: String::new() }
    }
}

/// The typed form of the data field in a creation reply.
#[derive(Debug)]
pub struct CreateDenomReponse {
    pub new_token_denom: String,
}

impl CreateDenomReponse {
    /// Decodes a raw creation reply: field 1 holds the created denom
    /// string.
    pub fn from_reply_data(data: &[u8]) -> (r: Result<CreateDenomReponse, DecodeError>)
        ensures
            (match r {
                Ok(resp) => decode::spec_decode_string_field(data@, 1) == Ok::<_, DecodeError>(
                    resp.new_token_denom@,
                ),
                Err(e) => decode::spec_decode_string_field(data@, 1) == Err::<
                    Seq<char>,
                    DecodeError,
                >(e),
            }),
    {
        match decode::parse_protobuf_string(data, 1) {
            Ok(s) => Ok(CreateDenomReponse { new_token_denom: s }),
            Err(e) => Err(e),
        }
    }
}

} // verus!
