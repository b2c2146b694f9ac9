//! Read-only queries over the registry and their response records.

use vstd::prelude::*;

use crate::denom;
use crate::denom::{spec_bad_candidate_message, spec_candidate, spec_denom_parts_ok};
use crate::error::{ErrorView, TokenFactoryError};
use crate::registry::TokenFactoryModule;
use crate::types::Metadata;

verus! {

/// A top-level custom query: room for other custom variants beside the
/// token factory's own.
#[derive(Debug)]
pub enum TokenFactoryQuery {
    Token(TokenQuery),
}

/// One query per read-only projection of the registry.
#[derive(Debug)]
pub enum TokenQuery {
    /// The full denom a creator and a subdenom would form; no existence
    /// check is made against the registry.
    FullDenom { creator_addr: String, subdenom: String },
    /// The metadata stored for the denom, if any.
    Metadata { denom: String },
    /// The current admin of the denom; fails for a denom never created.
    Admin { denom: String },
    /// All denoms the creator has created, in creation order.
    DenomsByCreator { creator: String },
    /// Configuration parameters; deliberately unimplemented, fails loudly.
    Params {},
}

/// Response to [`TokenQuery::FullDenom`].
#[derive(Debug)]
pub struct FullDenomResponse {
    pub denom: String,
}

/// Response to [`TokenQuery::Metadata`]; the field is `None` when no
/// metadata was ever set for the denom.
#[derive(Debug)]
pub struct MetadataResponse {
    pub metadata: Option<Metadata>,
}

/// Response to [`TokenQuery::Admin`].
#[derive(Debug)]
pub struct AdminResponse {
    pub admin: String,
}

/// Response to [`TokenQuery::DenomsByCreator`]; empty for a creator that
/// never created a denom.
#[derive(Debug)]
pub struct DenomsByCreatorResponse {
    pub denoms: Vec<String>,
}

/// The response value of a successful query, one variant per query.
#[derive(Debug)]
pub enum QueryAnswer {
    FullDenom(FullDenomResponse),
    Metadata(MetadataResponse),
    Admin(AdminResponse),
    DenomsByCreator(DenomsByCreatorResponse),
}

impl TokenFactoryModule {
    /// Answers one query against the current registry state, without
    /// mutating anything.
    pub fn query(&self, query: &TokenFactoryQuery) -> (r: Result<
        QueryAnswer,
        TokenFactoryError,
    >)
        requires
            self.wf(),
        ensures
            (match *query {
                TokenFactoryQuery::Token(TokenQuery::FullDenom { ref creator_addr, ref subdenom }) => {
                    match r {
                        Ok(ans) => ans matches QueryAnswer::FullDenom(resp)
                            && spec_denom_parts_ok(creator_addr@, subdenom@)
                            && resp.denom@ == spec_candidate(creator_addr@, subdenom@),
                        Err(e) => !spec_denom_parts_ok(creator_addr@, subdenom@) && e@
                            == ErrorView::InvalidDenom {
                            denom: spec_candidate(creator_addr@, subdenom@),
                            message: spec_bad_candidate_message(),
                        },
                    }
                },
                TokenFactoryQuery::Token(TokenQuery::Metadata { ref denom }) => {
                    match r {
                        Ok(ans) => ans matches QueryAnswer::Metadata(resp) && resp.metadata.deep_view()
                            == (if self@.metadata.contains_key(denom@) {
                            Some(self@.metadata[denom@])
                        } else {
                            None
                        }),
                        Err(e) => false,
                    }
                },
                TokenFactoryQuery::Token(TokenQuery::Admin { ref denom }) => {
                    match r {
                        Ok(ans) => ans matches QueryAnswer::Admin(resp) && self@.admins.contains_key(
                            denom@,
                        ) && resp.admin@ == self@.admins[denom@],
                        Err(e) => !self@.admins.contains_key(denom@) && e@
                            == ErrorView::UnknownDenom,
                    }
                },
                TokenFactoryQuery::Token(TokenQuery::DenomsByCreator { ref creator }) => {
                    match r {
                        Ok(ans) => ans matches QueryAnswer::DenomsByCreator(resp)
                            && resp.denoms.deep_view() == (if self@.denoms_by_creator.contains_key(
                            creator@,
                        ) {
                            self@.denoms_by_creator[creator@]
                        } else {
                            Seq::<Seq<char>>::empty()
                        }),
                        Err(e) => false,
                    }
                },
                TokenFactoryQuery::Token(TokenQuery::Params {}) => {
                    match r {
                        Ok(ans) => false,
                        Err(e) => e@ == ErrorView::Unimplemented,
                    }
                },
            }),
    {
        match query {
            TokenFactoryQuery::Token(TokenQuery::FullDenom { creator_addr, subdenom }) => {
                match denom::full_denom(creator_addr.as_str(), subdenom.as_str()) {
                    Ok(d) => Ok(QueryAnswer::FullDenom(FullDenomResponse { denom: d })),
                    Err(e) => Err(e),
                }
            },
            TokenFactoryQuery::Token(TokenQuery::Metadata { denom }) => {
                let stored = match self.metadata(denom.as_str()) {
                    Some(m) => Some(m.clone()),
                    None => None,
                };
                Ok(QueryAnswer::Metadata(MetadataResponse { metadata: stored }))
            },
            TokenFactoryQuery::Token(TokenQuery::Admin { denom }) => {
                match self.admin(denom.as_str()) {
                    Ok(a) => Ok(QueryAnswer::Admin(AdminResponse { admin: a })),
                    Err(e) => Err(e),
                }
            },
            TokenFactoryQuery::Token(TokenQuery::DenomsByCreator { creator }) => {
                let denoms = self.denoms_by_creator(creator.as_str());
                Ok(QueryAnswer::DenomsByCreator(DenomsByCreatorResponse { denoms }))
            },
            TokenFactoryQuery::Token(TokenQuery::Params {}) => Err(
                TokenFactoryError::Unimplemented,
            ),
        }
    }
}

} // verus!
