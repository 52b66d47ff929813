use globchat::ids::{follow, is_of_node, node_field, room_after};
use globchat::state::Snowflakes;
use snowflake::SnowflakeIdGenerator;

const TICK: i64 = 4194304;
const NODE_33: i64 = 33 * 4096;

#[test]
fn node_field_joins_machine_and_node() {
    assert_eq!(node_field(0, 0), 0);
    assert_eq!(node_field(1, 1), 33);
    assert_eq!(node_field(31, 31), 1023);
    assert_eq!(node_field(2, 5), 69);
}

#[test]
fn node_membership_reads_the_middle_bits() {
    assert!(is_of_node(TICK + NODE_33, 33));
    assert!(is_of_node(NODE_33 + 4095, 33));
    assert!(!is_of_node(TICK + NODE_33, 34));
    assert!(!is_of_node(-1, 33));
    assert!(is_of_node(0, 0));
}

#[test]
fn a_proposal_above_the_last_is_taken() {
    let last = 5 * TICK + NODE_33 + 7;
    let candidate = 6 * TICK + NODE_33;
    assert_eq!(follow(last, 33, candidate), candidate);
    assert_eq!(follow(-1, 33, candidate), candidate);
}

#[test]
fn a_proposal_in_the_same_tick_must_count_up() {
    let last = 5 * TICK + NODE_33 + 7;
    assert_eq!(follow(last, 33, last + 1), last + 1);
    assert_eq!(follow(last, 33, last), last + 1);
    assert_eq!(follow(last, 33, last - 1), last + 1);
}

#[test]
fn a_clock_that_went_back_does_not_take_the_ids_back() {
    let last = 1000 * TICK + NODE_33 + 3;
    let stale = 900 * TICK + NODE_33;
    assert_eq!(follow(last, 33, stale), 1000 * TICK + NODE_33 + 4);
}

#[test]
fn a_used_up_tick_rolls_into_the_next() {
    let last = 1000 * TICK + NODE_33 + 4095;
    let stale = 1000 * TICK + NODE_33;
    assert_eq!(follow(last, 33, stale), 1001 * TICK + NODE_33);
}

#[test]
fn a_proposal_of_another_node_is_not_taken() {
    let last = 5 * TICK + NODE_33;
    let foreign = 9 * TICK + 34 * 4096;
    assert_eq!(follow(last, 33, foreign), last + 1);
    assert_eq!(follow(last, 33, -5), last + 1);
}

#[test]
fn the_first_id_without_a_usable_proposal_is_the_least_of_the_node() {
    assert_eq!(follow(-1, 33, -1), NODE_33);
    assert_eq!(follow(-1, 0, -9), 0);
}

#[test]
fn room_ends_at_the_greatest_id_of_the_node() {
    let top = i64::MAX - (1023 - 33) * 4096;
    assert!(room_after(-1, 33));
    assert!(room_after(top - 1, 33));
    assert!(!room_after(top, 33));
    assert!(!room_after(i64::MAX, 1023));
    assert_eq!(follow(top - 1, 33, 0), top);
}

#[test]
fn generated_ids_rise_strictly() {
    let mut snowflakes = Snowflakes::new(1, 1);
    let mut previous = -1;
    for _ in 0..10000 {
        assert!(snowflakes.has_room());
        let id = snowflakes.generate();
        assert!(id > previous);
        assert!(is_of_node(id, 33));
        previous = id;
    }
}

#[test]
fn generated_ids_have_no_duplicates() {
    let mut snowflakes = Snowflakes::new(3, 4);
    let mut seen = std::collections::HashSet::new();
    for _ in 0..5000 {
        let id = snowflakes.generate();
        assert!(seen.insert(id));
        assert!(is_of_node(id, node_field(3, 4)));
    }
}

#[test]
fn generated_ids_carry_the_present_time() {
    let before = std::time::SystemTime::now().duration_since(std::time::UNIX_EPOCH).unwrap().as_millis() as i64;
    let mut snowflakes = Snowflakes::new(1, 1);
    let id = snowflakes.generate();
    let after = std::time::SystemTime::now().duration_since(std::time::UNIX_EPOCH).unwrap().as_millis() as i64;
    let tick = id / TICK;
    assert!(before <= tick && tick <= after);
}

#[test]
fn ids_are_laid_out_as_the_source_lays_them_out() {
    let mut source = SnowflakeIdGenerator::new(1, 1);
    let theirs = source.real_time_generate();
    assert!(is_of_node(theirs, node_field(1, 1)));
    let mut other = SnowflakeIdGenerator::new(31, 0);
    assert!(is_of_node(other.real_time_generate(), node_field(31, 0)));
}
