use ca::cells::{computeSingle, computeWorld, computeWorldParallel, Rules};
use ca::engine::World;

fn rule30() -> Rules {
    Rules {
        ttt: false,
        ttf: false,
        tft: false,
        tff: true,
        ftt: true,
        ftf: true,
        fft: true,
        fff: false,
    }
}

#[test]
fn compute_single_reads_the_matching_table_entry() {
    let rules = rule30();
    assert_eq!(computeSingle(rules, true, true, true), false);
    assert_eq!(computeSingle(rules, true, true, false), false);
    assert_eq!(computeSingle(rules, true, false, true), false);
    assert_eq!(computeSingle(rules, true, false, false), true);
    assert_eq!(computeSingle(rules, false, true, true), true);
    assert_eq!(computeSingle(rules, false, true, false), true);
    assert_eq!(computeSingle(rules, false, false, true), true);
    assert_eq!(computeSingle(rules, false, false, false), false);
}

#[test]
fn compute_world_steps_a_lone_cell_under_rule_thirty() {
    let world = [false, false, true, false, false];
    let next = computeWorld(rule30(), &world);
    assert_eq!(next, vec![false, true, true, true, false]);
}

#[test]
fn compute_world_reads_the_edges_as_dead() {
    // a live cell on each edge: the missing outer neighbors count as dead
    let world = [true, false, false, true];
    let next = computeWorld(rule30(), &world);
    // 0: (dead, live, dead) -> live; 1: (live, dead, dead) -> live;
    // 2: (dead, dead, live) -> live; 3: (dead, live, dead) -> live
    assert_eq!(next, vec![true, true, true, true]);
}

#[test]
fn compute_world_of_an_empty_row_is_empty() {
    let world: [bool; 0] = [];
    assert_eq!(computeWorld(rule30(), &world), Vec::<bool>::new());
}

#[test]
fn parallel_variant_matches_the_sequential_one() {
    let world = [true, false, true, true, false, false, true, false];
    let sequential = computeWorld(rule30(), &world);
    let parallel = computeWorldParallel(rule30(), &world);
    assert_eq!(parallel, sequential);
    assert_eq!(
        parallel,
        vec![true, false, true, false, true, true, true, true]
    );
}

#[test]
fn rule_table_agrees_with_the_rule_byte_engine() {
    // the rule 30 table spells out the bits of the byte 30: an unwrapped
    // World seeded alike must step to the same generation
    let start = [false, true, false, false, true, true, false];
    let mut world = World::new(30, 7, false);
    for (i, &cell) in start.iter().enumerate() {
        world.set(i, cell).unwrap();
    }
    world.step();
    let by_table = computeWorld(rule30(), &start);
    for (i, &cell) in by_table.iter().enumerate() {
        assert_eq!(world.get_state().get(i), Some(cell));
    }
}
