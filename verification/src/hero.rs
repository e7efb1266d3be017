use vstd::prelude::*;

verus! {

/// A rectangular hit region, kept by its corners.
#[derive(Debug, Clone, Copy)]
#[allow(dead_code)]
pub struct Block {
    a: i32,
    b: i32,
    c: i32,
    d: i32,
}

/// A fighter's hit regions together with its movement step sizes.
#[derive(Debug, Clone, Copy)]
pub struct Hero {
    pub block_head: Block,
    pub block_body: Block,
    pub block_leg: Block,
    pub block_hand: Block,
    pub step_walk: u32,
    pub step_run: u32,
}

} // verus!
