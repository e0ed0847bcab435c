//! Puzzle solutions of a small seasonal web service: fixed replies, the
//! XOR cube of packet IDs, reindeer aggregates and elf counting.

pub mod cube;
pub mod decimal;
pub mod reindeer;
pub mod greeting;
pub mod elves;
