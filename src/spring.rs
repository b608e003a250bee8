use vstd::prelude::*;

verus! {

/// Which force acts on a body's length coordinate.
#[derive(Clone, Copy, Debug, PartialEq, Eq, Structural)]
pub enum SpringMode {
    /// The body is rigid: it has no length coordinate.
    Rigid,
    /// A one-sided spring that is compressed: it exerts no force.
    Slack,
    /// The spring pulls the length back to its rest length, with force
    /// `-stiffness * (length - rest length)`.
    Restoring,
}

/// Chooses the spring's behaviour from the body's elasticity, whether its
/// spring is one-sided, and whether it is shorter than its rest length.
pub fn spring_mode(elastic: bool, one_sided: bool, compressed: bool) -> (r: SpringMode)
    ensures
        !elastic <==> r == SpringMode::Rigid,
        r == SpringMode::Slack <==> elastic && one_sided && compressed,
        r == SpringMode::Restoring <==> elastic && !(one_sided && compressed),
{
    if !elastic {
        SpringMode::Rigid
    } else if one_sided && compressed {
        SpringMode::Slack
    } else {
        SpringMode::Restoring
    }
}

} // verus!
