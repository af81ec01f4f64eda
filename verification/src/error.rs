use vstd::prelude::*;

verus! {

/// Why an execution of the contract was refused.
#[derive(Debug)]
pub enum ContractError {
    /// The sender may not do what it asked.
    Unauthorized {},
    /// Any other refusal, with its explanation.
    CustomError { val: String },
}

/// The mathematical value of a [`ContractError`].
pub enum ContractErrorView {
    Unauthorized,
    CustomError(Seq<char>),
}

impl View for ContractError {
    type V = ContractErrorView;

    open spec fn view(&self) -> ContractErrorView {
        match self {
            ContractError::Unauthorized {  } => ContractErrorView::Unauthorized,
            ContractError::CustomError { val } => ContractErrorView::CustomError(val@),
        }
    }
}

/// Why a query of the contract was refused.
#[derive(Debug)]
pub enum QueryError {
    /// Something that the query needs does not exist; `kind` says what.
    NotFound { kind: String },
}

/// The mathematical value of a [`QueryError`].
pub enum QueryErrorView {
    NotFound(Seq<char>),
}

impl View for QueryError {
    type V = QueryErrorView;

    open spec fn view(&self) -> QueryErrorView {
        match self {
            QueryError::NotFound { kind } => QueryErrorView::NotFound(kind@),
        }
    }
}

} // verus!
