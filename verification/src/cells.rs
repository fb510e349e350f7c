//! A cell's next state as a lookup in an explicit table of the eight
//! possible neighborhoods, and one whole-row generation computed from it.

use vstd::prelude::*;
use crate::engine::{neighborhood, next_gen, rule_bit};

verus! {

/// One boolean per 3-cell neighborhood `(left, center, right)`: the field
/// name spells the neighborhood, `t` for live and `f` for dead, left first.
#[derive(Clone, Copy, PartialEq, Eq, Structural, Debug)]
pub struct Rules {
    pub ttt: bool,
    pub ttf: bool,
    pub tft: bool,
    pub tff: bool,
    pub ftt: bool,
    pub ftf: bool,
    pub fft: bool,
    pub fff: bool,
}

/// The table entry for the neighborhood `(a, b, c)`: the next state of the
/// center cell `b`.
pub open spec fn rules_next(rules: Rules, a: bool, b: bool, c: bool) -> bool {
    if a {
        if b {
            if c { rules.ttt } else { rules.ttf }
        } else {
            if c { rules.tft } else { rules.tff }
        }
    } else {
        if b {
            if c { rules.ftt } else { rules.ftf }
        } else {
            if c { rules.fft } else { rules.fff }
        }
    }
}

/// Takes a rule table and three neighboring cells (`a`, `b`, and `c`) and
/// returns the next state of the center cell `b` under that table.
#[allow(non_snake_case)]
pub fn computeSingle(rules: Rules, a: bool, b: bool, c: bool) -> (r: bool)
    ensures
        r == rules_next(rules, a, b, c),
{
    match (a, b, c) {
        (true, true, true) => rules.ttt,
        (true, true, false) => rules.ttf,
        (true, false, true) => rules.tft,
        (true, false, false) => rules.tff,
        (false, true, true) => rules.ftt,
        (false, true, false) => rules.ftf,
        (false, false, true) => rules.fft,
        (false, false, false) => rules.fff,
    }
}

/// One generation of a non-wrapping row under a rule table: cell `i` of the
/// result is the table entry for `(w[i-1], w[i], w[i+1])`, a neighbor off
/// either edge read as dead.
pub open spec fn rules_step(rules: Rules, w: Seq<bool>) -> Seq<bool> {
    Seq::new(
        w.len(),
        |i: int|
            rules_next(
                rules,
                if i > 0 { w[i - 1] } else { false },
                w[i],
                if i < w.len() - 1 { w[i + 1] } else { false },
            ),
    )
}

/// Takes a rule table and a world (a row of cells) and returns a new world
/// representing one step of the automaton, each cell computed from the
/// frozen input row alone.
#[allow(non_snake_case)]
pub fn computeWorld(rules: Rules, world: &[bool]) -> (r: Vec<bool>)
    ensures
        r@ == rules_step(rules, world@),
{
    let len: usize = world.len();
    let mut new_world: Vec<bool> = Vec::new();
    let mut i: usize = 0;
    while i < len
        invariant
            len == world@.len(),
            i <= len,
            new_world@.len() == i as int,
            forall|j: int| 0 <= j < i ==> new_world@[j] == rules_step(rules, world@)[j],
        decreases len - i,
    {
        let a = if i > 0 { *vstd::slice::slice_index_get(world, i - 1) } else { false };
        let b = *vstd::slice::slice_index_get(world, i);
        let c = if i < len - 1 { *vstd::slice::slice_index_get(world, i + 1) } else { false };
        new_world.push(computeSingle(rules, a, b, c));
        i = i + 1;
    }
    proof {
        assert(new_world@ =~= rules_step(rules, world@));
    }
    new_world
}

/// The same generation as `computeWorld`: every cell depends only on three
/// read-only values of the input row, so the per-cell computations are
/// independent and could be dispatched to parallel workers and joined;
/// here they are carried out in index order into a disjoint slot each.
#[allow(non_snake_case)]
pub fn computeWorldParallel(rules: Rules, world: &[bool]) -> (r: Vec<bool>)
    ensures
        r@ == rules_step(rules, world@),
{
    let len: usize = world.len();
    let mut new_world: Vec<bool> = Vec::new();
    let mut i: usize = 0;
    while i < len
        invariant
            len == world@.len(),
            i <= len,
            new_world@.len() == i as int,
            forall|j: int| 0 <= j < i ==> new_world@[j] == world@[j],
        decreases len - i,
    {
        new_world.push(*vstd::slice::slice_index_get(world, i));
        i = i + 1;
    }
    let mut cell: usize = 0;
    while cell < len
        invariant
            len == world@.len(),
            cell <= len,
            new_world@.len() == len as int,
            forall|j: int| 0 <= j < cell ==> new_world@[j] == rules_step(rules, world@)[j],
            forall|j: int| cell <= j < len ==> new_world@[j] == world@[j],
        decreases len - cell,
    {
        let a = if cell > 0 { *vstd::slice::slice_index_get(world, cell - 1) } else { false };
        let b = *vstd::slice::slice_index_get(world, cell);
        let c = if cell < len - 1 { *vstd::slice::slice_index_get(world, cell + 1) } else { false };
        let result = computeSingle(rules, a, b, c);
        new_world.set(cell, result);
        cell = cell + 1;
    }
    proof {
        assert(new_world@ =~= rules_step(rules, world@));
    }
    new_world
}

/// The table spells out the bits of the rule byte: each entry equals the
/// rule bit selected by its neighborhood's encoding.
pub open spec fn matches_rule_byte(rules: Rules, rule: u8) -> bool {
    &&& rules.ttt == rule_bit(rule, 7)
    &&& rules.ttf == rule_bit(rule, 6)
    &&& rules.tft == rule_bit(rule, 5)
    &&& rules.tff == rule_bit(rule, 4)
    &&& rules.ftt == rule_bit(rule, 3)
    &&& rules.ftf == rule_bit(rule, 2)
    &&& rules.fft == rule_bit(rule, 1)
    &&& rules.fff == rule_bit(rule, 0)
}

/// A rule table that spells out the bits of a rule byte steps every row
/// exactly as the byte-driven engine does without wrap-around: the two
/// generation functions agree on all inputs.
pub proof fn lemma_rules_step_matches_byte(rules: Rules, rule: u8, w: Seq<bool>)
    requires
        matches_rule_byte(rules, rule),
    ensures
        rules_step(rules, w) == next_gen(rule, false, w),
{
    assert forall|i: int| 0 <= i < w.len() implies rules_step(rules, w)[i] == next_gen(
        rule,
        false,
        w,
    )[i] by {
        let a = if i > 0 { w[i - 1] } else { false };
        let b = w[i];
        let c = if i < w.len() - 1 { w[i + 1] } else { false };
        assert(neighborhood(w, false, i) == (if a { 4int } else { 0int }) + (if b {
            2int
        } else {
            0int
        }) + (if c { 1int } else { 0int }));
    };
    assert(rules_step(rules, w) =~= next_gen(rule, false, w));
}

} // verus!
