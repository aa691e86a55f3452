//! Encoded task plans.

use datafusion::error::DataFusionError;
use datafusion_proto::physical_plan::AsExecutionPlan;
use datafusion_proto::protobuf::PhysicalPlanNode;
use vstd::prelude::*;

verus! {

/// A decoded task plan, as `datafusion_proto` holds it.
#[verifier::external_type_specification]
#[verifier::external_body]
pub struct ExPhysicalPlanNode(datafusion_proto::protobuf::PhysicalPlanNode);

/// An error of `datafusion`.
#[verifier::external_type_specification]
#[verifier::external_body]
pub struct ExDataFusionError(datafusion::error::DataFusionError);

/// The plan that `PhysicalPlanNode::try_decode` reads from bytes, where they are an encoded plan.
/// Plans are equal by their contents, as `PartialEq` of `PhysicalPlanNode` has it: the order in
/// which the maps inside of one are walked is no part of it.
pub uninterp spec fn decoded_plan(
    bytes: Seq<u8>,
) -> Option<datafusion_proto::protobuf::PhysicalPlanNode>;

/// Reads a plan with `PhysicalPlanNode::try_decode`. Whether there is one, and what it contains,
/// depends on the bytes alone. What the error of other bytes says is left unsaid: it may hold a
/// backtrace.
#[verifier::external_body]
pub(crate) fn decode_plan(bytes: &Vec<u8>) -> (r: Result<PhysicalPlanNode, DataFusionError>)
    ensures
        match r {
            Ok(node) => decoded_plan(bytes@) == Some(node),
            Err(_) => decoded_plan(bytes@) is None,
        },
{
    PhysicalPlanNode::try_decode(bytes)
}

/// Whether `plan` is what `bytes` are read as.
pub open spec fn is_decoded(
    plan: Result<PhysicalPlanNode, DataFusionError>,
    bytes: Seq<u8>,
) -> bool {
    match plan {
        Ok(node) => decoded_plan(bytes) == Some(node),
        Err(_) => decoded_plan(bytes) is None,
    }
}

} // verus!
