//! The spatial-query boundary, exercised through a host-style
//! implementation with milli world units.

use libreconomy::{AgentId, ResourceLocation, WorldQuery};

struct MockWorldQuery {
    agents: Vec<(AgentId, f64, f64)>,
    resources: Vec<(String, f64, f64)>,
    interaction_distance: f64,
}

impl MockWorldQuery {
    fn new() -> Self {
        Self { agents: Vec::new(), resources: Vec::new(), interaction_distance: 10_000.0 }
    }

    fn add_agent(&mut self, id: AgentId, x: f64, y: f64) {
        self.agents.push((id, x, y));
    }

    fn add_resource(&mut self, resource_type: &str, x: f64, y: f64) {
        self.resources.push((resource_type.to_string(), x, y));
    }

    fn distance(&self, x1: f64, y1: f64, x2: f64, y2: f64) -> f64 {
        ((x2 - x1).powi(2) + (y2 - y1).powi(2)).sqrt()
    }

    fn get_agent_position(&self, agent: AgentId) -> Option<(f64, f64)> {
        self.agents.iter().find(|(id, _, _)| *id == agent).map(|(_, x, y)| (*x, *y))
    }
}

impl WorldQuery for MockWorldQuery {
    fn get_nearby_agents(&self, agent: AgentId, max_count: usize) -> Vec<AgentId> {
        let (ax, ay) = match self.get_agent_position(agent) {
            Some(pos) => pos,
            None => return Vec::new(),
        };

        let mut nearby: Vec<(AgentId, f64)> = self
            .agents
            .iter()
            .filter(|(id, _, _)| *id != agent)
            .map(|(id, x, y)| {
                let dist = self.distance(ax, ay, *x, *y);
                (*id, dist)
            })
            .collect();

        nearby.sort_by(|a, b| a.1.partial_cmp(&b.1).unwrap());

        nearby.iter().take(max_count).map(|(id, _)| *id).collect()
    }

    fn get_nearby_resources(
        &self,
        agent: AgentId,
        resource_type: &str,
        max_radius: u64,
    ) -> Vec<ResourceLocation> {
        let (ax, ay) = match self.get_agent_position(agent) {
            Some(pos) => pos,
            None => return Vec::new(),
        };

        let mut nearby: Vec<ResourceLocation> = self
            .resources
            .iter()
            .filter(|(rtype, _, _)| rtype == resource_type)
            .map(|(_, x, y)| {
                let dist = self.distance(ax, ay, *x, *y);
                ResourceLocation::new(*x as i64, *y as i64, dist as u64)
            })
            .filter(|loc| loc.distance <= max_radius)
            .collect();

        nearby.sort_by(|a, b| a.distance.cmp(&b.distance));

        nearby
    }

    fn can_interact(&self, agent1: AgentId, agent2: AgentId) -> bool {
        let (x1, y1) = match self.get_agent_position(agent1) {
            Some(pos) => pos,
            None => return false,
        };

        let (x2, y2) = match self.get_agent_position(agent2) {
            Some(pos) => pos,
            None => return false,
        };

        self.distance(x1, y1, x2, y2) <= self.interaction_distance
    }
}

#[test]
fn test_resource_location_creation() {
    let loc = ResourceLocation::new(10_000, 20_000, 5_000);
    assert_eq!(loc.x, 10_000);
    assert_eq!(loc.y, 20_000);
    assert_eq!(loc.distance, 5_000);
}

#[test]
fn test_get_nearby_agents() {
    let mut world = MockWorldQuery::new();
    let agent0 = AgentId(0);
    let agent1 = AgentId(1);
    let agent2 = AgentId(2);
    let agent3 = AgentId(3);

    world.add_agent(agent0, 0.0, 0.0);
    world.add_agent(agent1, 10_000.0, 0.0);
    world.add_agent(agent2, 5_000.0, 0.0);
    world.add_agent(agent3, 50_000.0, 0.0);

    let nearby = world.get_nearby_agents(agent0, 10);
    assert_eq!(nearby.len(), 3);
    assert_eq!(nearby[0], agent2);
    assert_eq!(nearby[1], agent1);
    assert_eq!(nearby[2], agent3);

    let nearby_limited = world.get_nearby_agents(agent0, 2);
    assert_eq!(nearby_limited.len(), 2);
    assert_eq!(nearby_limited[0], agent2);
    assert_eq!(nearby_limited[1], agent1);
}

#[test]
fn test_get_nearby_resources() {
    let mut world = MockWorldQuery::new();
    let agent = AgentId(0);

    world.add_agent(agent, 0.0, 0.0);
    world.add_resource("water", 10_000.0, 0.0);
    world.add_resource("water", 5_000.0, 0.0);
    world.add_resource("grass", 3_000.0, 0.0);
    world.add_resource("water", 100_000.0, 0.0);

    let water = world.get_nearby_resources(agent, "water", 50_000);
    assert_eq!(water.len(), 2);
    assert_eq!(water[0].distance, 5_000);
    assert_eq!(water[1].distance, 10_000);

    let grass = world.get_nearby_resources(agent, "grass", 50_000);
    assert_eq!(grass.len(), 1);
    assert_eq!(grass[0].distance, 3_000);

    let far_water = world.get_nearby_resources(agent, "water", 8_000);
    assert_eq!(far_water.len(), 1);
}

#[test]
fn test_can_interact() {
    let mut world = MockWorldQuery::new();
    world.interaction_distance = 10_000.0;

    let agent1 = AgentId(1);
    let agent2 = AgentId(2);
    let agent3 = AgentId(3);

    world.add_agent(agent1, 0.0, 0.0);
    world.add_agent(agent2, 5_000.0, 0.0);
    world.add_agent(agent3, 20_000.0, 0.0);

    assert!(world.can_interact(agent1, agent2));
    assert!(!world.can_interact(agent1, agent3));
}

#[test]
fn test_get_nearby_agents_excludes_self() {
    let mut world = MockWorldQuery::new();
    let agent = AgentId(0);
    world.add_agent(agent, 0.0, 0.0);

    let nearby = world.get_nearby_agents(agent, 10);
    assert_eq!(nearby.len(), 0);
}

#[test]
fn test_get_nearby_resources_empty() {
    let mut world = MockWorldQuery::new();
    let agent = AgentId(0);
    world.add_agent(agent, 0.0, 0.0);

    let water = world.get_nearby_resources(agent, "water", 100_000);
    assert_eq!(water.len(), 0);
}

#[test]
fn test_can_interact_missing_agent() {
    let world = MockWorldQuery::new();
    let agent1 = AgentId(1);
    let agent2 = AgentId(2);

    assert!(!world.can_interact(agent1, agent2));
}
