//! The time-ordered identifiers of the `snowflake` crate.

use vstd::prelude::*;
use snowflake::SnowflakeIdGenerator;

verus! {

/// The crate's generator: an epoch, the last millisecond it used, the two
/// parts of the node identifier and a running index.
#[verifier::external_type_specification]
#[verifier::external_body]
pub struct ExSnowflakeIdGenerator(SnowflakeIdGenerator);

/// Makes a generator with `SnowflakeIdGenerator::new`, which counts
/// milliseconds from the start of 1970.
///
/// Trusted, and nothing is promised of the generator. The call reads the
/// clock and panics where it stands before 1970.
#[verifier::external_body]
pub(crate) fn start(machine_id: i32, node_id: i32) -> SnowflakeIdGenerator {
    SnowflakeIdGenerator::new(machine_id, node_id)
}

/// Asks the generator for an identifier with `real_time_generate`: the
/// present millisecond, the node identifier and an index that runs within the
/// millisecond, waiting for the next millisecond when the index is used up.
///
/// Trusted, and nothing is promised of the number: it follows the clock,
/// backwards too. The call panics where the clock stands before 1970 and
/// does not return while a used-up millisecond lasts.
#[verifier::external_body]
pub(crate) fn draw(source: &mut SnowflakeIdGenerator) -> i64 {
    source.real_time_generate()
}

} // verus!
