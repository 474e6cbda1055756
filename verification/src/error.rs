//! The error taxonomy of the oracle's commands and queries.

use vstd::prelude::*;

verus! {

/// Every way a command or query can fail. An error is terminal for its
/// command: no mutation it attempted is kept.
#[derive(Debug, PartialEq)]
pub enum ContractError {
    Unauthorized {},
    TokenNotSupported(String),
    TokenAlreadySupported(String),
    UpdaterNotWhitelisted(String),
    UpdaterAlreadyWhitelisted(String),
    PriceDeviationExceedsThreshold {},
    NoPendingUpdate(String),
    InvalidThreshold(String),
    NoPriceData(String),
}

/// The mathematical image of a `ContractError`: the same variants over
/// character sequences.
pub enum ErrorView {
    Unauthorized,
    TokenNotSupported(Seq<char>),
    TokenAlreadySupported(Seq<char>),
    UpdaterNotWhitelisted(Seq<char>),
    UpdaterAlreadyWhitelisted(Seq<char>),
    PriceDeviationExceedsThreshold,
    NoPendingUpdate(Seq<char>),
    InvalidThreshold(Seq<char>),
    NoPriceData(Seq<char>),
}

impl View for ContractError {
    type V = ErrorView;

    open spec fn view(&self) -> ErrorView {
        match self {
            ContractError::Unauthorized {} => ErrorView::Unauthorized,
            ContractError::TokenNotSupported(t) => ErrorView::TokenNotSupported(t@),
            ContractError::TokenAlreadySupported(t) => ErrorView::TokenAlreadySupported(t@),
            ContractError::UpdaterNotWhitelisted(a) => ErrorView::UpdaterNotWhitelisted(a@),
            ContractError::UpdaterAlreadyWhitelisted(a) => ErrorView::UpdaterAlreadyWhitelisted(a@),
            ContractError::PriceDeviationExceedsThreshold {} => ErrorView::PriceDeviationExceedsThreshold,
            ContractError::NoPendingUpdate(t) => ErrorView::NoPendingUpdate(t@),
            ContractError::InvalidThreshold(m) => ErrorView::InvalidThreshold(m@),
            ContractError::NoPriceData(t) => ErrorView::NoPriceData(t@),
        }
    }
}

} // verus!
