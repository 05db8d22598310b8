//! The spatial-query capability the host implements: distance-ordered
//! lookups of resources and agents.  The library assumes nothing about the
//! host's world beyond what each call returns; distances and coordinates
//! are in milli world units.

use vstd::prelude::*;

verus! {

use crate::identity::AgentId;

/// Location of a resource: coordinates and distance from the querying
/// agent, in milli world units.
#[derive(Debug, Clone, Copy, PartialEq, Eq, Structural)]
pub struct ResourceLocation {
    /// X coordinate in world space.
    pub x: i64,
    /// Y coordinate in world space.
    pub y: i64,
    /// Distance from the querying agent.
    pub distance: u64,
}

impl ResourceLocation {
    /// Create a new resource location.
    pub fn new(x: i64, y: i64, distance: u64) -> (r: Self)
        ensures
            r == (ResourceLocation { x, y, distance }),
    {
        ResourceLocation { x, y, distance }
    }
}

/// Spatial information the application world provides to the decision
/// engine.  Implementations should return lists sorted by distance,
/// closest first; the engine reads only the first entry of each list and
/// proves nothing that depends on the host's answers.
pub trait WorldQuery {
    /// Up to `max_count` agents near the given agent, closest first.
    fn get_nearby_agents(&self, agent: AgentId, max_count: usize) -> Vec<AgentId>;

    /// Resources of the given type within `max_radius` milli world units,
    /// closest first.
    fn get_nearby_resources(&self, agent: AgentId, resource_type: &str, max_radius: u64) -> Vec<
        ResourceLocation,
    >;

    /// Whether two agents are close enough to interact.
    fn can_interact(&self, agent1: AgentId, agent2: AgentId) -> bool;
}

} // verus!
