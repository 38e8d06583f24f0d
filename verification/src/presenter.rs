//! The order in which the expanded layers are handed to the display.

use vstd::prelude::*;
use crate::geometry::TargetLayer;

verus! {

/// One step of presenting the layers. The display itself is not part of this
/// library: whoever owns it carries the steps out, one after the other.
#[derive(Clone, Copy, Debug, PartialEq, Eq, Structural)]
pub enum PresenterStep {
    /// Block until the display signals a refresh.
    AwaitRefresh,
    /// Flush the layer's grid to the display surface.
    Commit(TargetLayer),
    /// Mark the layer visible or hidden.
    SetVisible(TargetLayer, bool),
}

/// The steps that present both layers once the expansion is complete: wait
/// for a refresh, then, for layer 0 and then for layer 1, commit the layer
/// and make it visible.
pub open spec fn presentation() -> Seq<PresenterStep> {
    seq![
        PresenterStep::AwaitRefresh,
        PresenterStep::Commit(TargetLayer::Layer0),
        PresenterStep::SetVisible(TargetLayer::Layer0, true),
        PresenterStep::Commit(TargetLayer::Layer1),
        PresenterStep::SetVisible(TargetLayer::Layer1, true),
    ]
}

/// The steps to carry out, in order, after the expansion and before the
/// per-frame loop begins.
pub fn presentation_steps() -> (steps: Vec<PresenterStep>)
    ensures
        steps@ == presentation(),
{
    let mut steps: Vec<PresenterStep> = Vec::new();
    steps.push(PresenterStep::AwaitRefresh);
    steps.push(PresenterStep::Commit(TargetLayer::Layer0));
    steps.push(PresenterStep::SetVisible(TargetLayer::Layer0, true));
    steps.push(PresenterStep::Commit(TargetLayer::Layer1));
    steps.push(PresenterStep::SetVisible(TargetLayer::Layer1, true));
    steps
}

/// Where in the presentation a layer is committed.
pub open spec fn commit_position(layer: TargetLayer) -> int {
    match layer {
        TargetLayer::Layer0 => 1,
        TargetLayer::Layer1 => 3,
    }
}

/// Each layer is committed exactly once and its visibility is set exactly
/// once, to visible, right after its commit; and nothing is committed before
/// the display has signalled a refresh.
pub proof fn theorem_presentation_order(layer: TargetLayer)
    ensures
        presentation()[0] == PresenterStep::AwaitRefresh,
        0 < commit_position(layer) < commit_position(layer) + 1 < presentation().len(),
        presentation()[commit_position(layer)] == PresenterStep::Commit(layer),
        presentation()[commit_position(layer) + 1] == PresenterStep::SetVisible(layer, true),
        forall|i: int|
            0 <= i < presentation().len() && #[trigger] presentation()[i] == PresenterStep::Commit(
                layer,
            ) ==> i == commit_position(layer),
        forall|i: int|
            0 <= i < presentation().len() ==> (#[trigger] presentation()[i]
                matches PresenterStep::SetVisible(target, visible) ==> target == layer ==> i
                == commit_position(layer) + 1 && visible),
{
    let steps = presentation();
}

} // verus!
