//! Errors of distributed plan publication and execution.

use vstd::prelude::*;

verus! {

/// Stable marker on execution errors caused by distributed plan publication failures.
pub const PLAN_PUBLICATION_ERROR_PREFIX: &'static str = "[datafusion-distributed:plan-publication]";

/// An error that this crate raises itself.
#[derive(Debug)]
pub enum PlanError {
    /// The plan cannot be executed as it was asked for.
    Execution(String),
    /// A rule between the coordinator and its workers was broken.
    Internal(String),
    /// A worker was addressed by something that is not a URL.
    InvalidUrl(url::ParseError),
}

/// What a [`PlanError`] says.
pub enum PlanErrorView {
    Execution(Seq<char>),
    Internal(Seq<char>),
    InvalidUrl(url::ParseError),
}

impl View for PlanError {
    type V = PlanErrorView;

    open spec fn view(&self) -> PlanErrorView {
        match *self {
            PlanError::Execution(message) => PlanErrorView::Execution(message@),
            PlanError::Internal(message) => PlanErrorView::Internal(message@),
            PlanError::InvalidUrl(error) => PlanErrorView::InvalidUrl(error),
        }
    }
}

/// An error that this crate raises itself, or one that it was handed and passes on.
#[derive(Debug)]
pub enum DistributedError<E> {
    /// Raised here.
    Plan(PlanError),
    /// Raised elsewhere and passed on unchanged.
    Source(E),
}

/// Why a text is not a URL, in the words of the `url` crate.
#[verifier::external_type_specification]
#[verifier::external_body]
pub struct ExUrlParseError(url::ParseError);

/// How `url::Url::parse` reads a text: the URL in its serialized form, or why there is none.
pub uninterp spec fn parsed_url(text: Seq<char>) -> Result<Seq<char>, url::ParseError>;

/// Reads a URL with `url::Url::parse` and gives its serialization. The result depends on the
/// text alone.
#[verifier::external_body]
pub(crate) fn parse_url(text: &str) -> (r: Result<String, url::ParseError>)
    ensures
        match r {
            Ok(url) => parsed_url(text@) == Ok::<Seq<char>, url::ParseError>(url@),
            Err(error) => parsed_url(text@) == Err::<Seq<char>, url::ParseError>(error),
        },
{
    url::Url::parse(text).map(|url| String::from(url))
}

} // verus!
