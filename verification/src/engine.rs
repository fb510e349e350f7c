//! The automaton engine: a fixed-length row of live/dead cells evolving
//! under an 8-bit rule, with optional wrap-around at the edges and a
//! double-buffered, simultaneous generation step.

use vstd::prelude::*;
use crate::bits::{bit_seq, bv_from_elem, bv_get, bv_len, bv_set};

verus! {

/// Bit `k` of the rule byte: the next state of a cell whose neighborhood
/// encodes to `k`.
pub open spec fn rule_bit(rule: u8, k: int) -> bool
    recommends
        0 <= k < 8,
{
    ((rule >> (k as u8)) & 1) != 0
}

/// The neighborhood of cell `i`, encoded as `left*4 + center*2 + right`,
/// with `left` the most significant bit. When `wrap` is set the row is
/// circular; otherwise a neighbor off either edge reads as dead.
pub open spec fn neighborhood(state: Seq<bool>, wrap: bool, i: int) -> int
    recommends
        0 <= i < state.len(),
{
    let left = if i == 0 {
        if wrap {
            state[state.len() - 1]
        } else {
            false
        }
    } else {
        state[i - 1]
    };
    let center = state[i];
    let right = if i == state.len() - 1 {
        if wrap {
            state[0]
        } else {
            false
        }
    } else {
        state[i + 1]
    };
    (if left { 4int } else { 0int }) + (if center { 2int } else { 0int }) + (if right {
        1int
    } else {
        0int
    })
}

/// The next state of cell `i`: the rule bit selected by its neighborhood.
pub open spec fn next_cell(rule: u8, wrap: bool, state: Seq<bool>, i: int) -> bool {
    rule_bit(rule, neighborhood(state, wrap, i))
}

/// One whole generation: every cell of the result is computed from the
/// given state alone.
pub open spec fn next_gen(rule: u8, wrap: bool, state: Seq<bool>) -> Seq<bool> {
    Seq::new(state.len(), |i: int| next_cell(rule, wrap, state, i))
}

/// Selecting a rule bit with a mask equals shifting the bit down: the
/// form the stepping code computes equals the one `rule_bit` states.
proof fn lemma_rule_bit_mask(rule: u8, k: u8)
    requires
        k < 8,
    ensures
        (rule & (1u8 << k) != 0) == rule_bit(rule, k as int),
{
    assert((rule & (1u8 << k) != 0) == (((rule >> k) & 1) != 0)) by (bit_vector)
        requires
            k < 8u8,
    ;
}

/// Takes a number representing three cells and returns whether, according
/// to this rule, the center cell should become live at the next
/// generation: bit `state & 7` of `rule`, only the low three bits of
/// `state` being of interest.
pub fn evolve(rule: u8, state: u8) -> (r: bool)
    ensures
        r == rule_bit(rule, (state & 7) as int),
{
    let k: u8 = state & 7;
    proof {
        assert(state & 7 < 8) by (bit_vector);
        lemma_rule_bit_mask(rule, k);
    }
    rule & (1u8 << k) != 0
}

/// A misuse of the engine's indexed operations, surfaced to the caller.
#[derive(Clone, Copy, PartialEq, Eq, Structural, Debug)]
pub enum CaError {
    /// The cell index lies outside `[0, size)`.
    InvalidIndex,
}

/// A one-dimensional binary cellular automaton: a fixed number of cells,
/// the rule byte that drives them, and a scratch buffer for the
/// generation being computed.
pub struct World {
    rule: u8,  // the rule that will be used to determine each new generation
    wrap: bool,  // whether to treat the first and last cells in the world as neighbors
    size: usize,  // the number of cells in the world
    state: bit_vec::BitVec,  // the current state of each cell in the world
    state_next: bit_vec::BitVec,  // buffer used while calculating the next generation
}

impl View for World {
    type V = Seq<bool>;

    closed spec fn view(&self) -> Seq<bool> {
        bit_seq(self.state)
    }
}

impl World {
    /// The rule byte the world was constructed with.
    pub closed spec fn rule(&self) -> u8 {
        self.rule
    }

    /// Whether the first and last cells are treated as neighbors.
    pub closed spec fn wrap(&self) -> bool {
        self.wrap
    }

    /// The fixed number of cells.
    pub closed spec fn size(&self) -> usize {
        self.size
    }

    /// Both buffers hold exactly `size` cells.
    pub closed spec fn wf(&self) -> bool {
        bit_seq(self.state).len() == self.size && bit_seq(self.state_next).len() == self.size
    }

    /// Create a new World with the given rule and number of cells, every
    /// cell dead. A size of zero is accepted and gives an empty world on
    /// which stepping is a no-op.
    pub fn new(rule: u8, size: usize, wrap: bool) -> (r: World)
        ensures
            r.wf(),
            r.rule() == rule,
            r.wrap() == wrap,
            r.size() == size,
            r@ == Seq::new(size as nat, |_i: int| false),
    {
        World {
            rule,
            wrap,
            size,
            state: bv_from_elem(size, false),
            state_next: bv_from_elem(size, false),
        }
    }

    /// Returns the underlying bit vector with the current state of the
    /// world. The result is a function of the current generation alone,
    /// so repeated calls without an intervening step read back the same
    /// cells.
    pub fn get_state(&self) -> (r: &bit_vec::BitVec)
        ensures
            bit_seq(*r) == self@,
    {
        &self.state
    }

    /// Sets the cell at the given index to the given state. An index
    /// outside `[0, size)` is refused and leaves the world unchanged.
    pub fn set(&mut self, index: usize, state: bool) -> (r: Result<(), CaError>)
        requires
            old(self).wf(),
        ensures
            final(self).wf(),
            final(self).rule() == old(self).rule(),
            final(self).wrap() == old(self).wrap(),
            final(self).size() == old(self).size(),
            index < old(self).size() ==> r == Ok::<(), CaError>(())
                && final(self)@ == old(self)@.update(index as int, state),
            index >= old(self).size() ==> r == Err::<(), CaError>(CaError::InvalidIndex)
                && final(self)@ == old(self)@,
    {
        if index < self.size {
            bv_set(&mut self.state, index, state);
            Ok(())
        } else {
            Err(CaError::InvalidIndex)
        }
    }

    /// Applies the rule to each cell: computes the whole next generation
    /// from the frozen current one, then publishes it by swapping the two
    /// buffers, so no caller ever reads a partially updated row.
    pub fn step(&mut self)
        requires
            old(self).wf(),
        ensures
            final(self).wf(),
            final(self).rule() == old(self).rule(),
            final(self).wrap() == old(self).wrap(),
            final(self).size() == old(self).size(),
            final(self)@ == next_gen(old(self).rule(), old(self).wrap(), old(self)@),
    {
        let ghost orig: Seq<bool> = self@;
        let ghost r0: u8 = self.rule;
        let ghost w0: bool = self.wrap;
        let ghost s0: usize = self.size;
        let mut cell_index: usize = 0;
        while cell_index < self.size
            invariant
                self.wf(),
                self.rule == r0,
                self.wrap == w0,
                self.size == s0,
                bit_seq(self.state) == orig,
                cell_index <= self.size,
                forall|j: int|
                    0 <= j < cell_index ==> bit_seq(self.state_next)[j] == next_cell(r0, w0, orig, j),
            decreases self.size - cell_index,
        {
            let neighbors: u8 = self.cell_neighbors(cell_index);
            proof {
                lemma_rule_bit_mask(r0, neighbors);
            }
            // pick the bit for this cell state out of the rule
            let new_bit: bool = self.rule & (1u8 << neighbors) != 0;
            bv_set(&mut self.state_next, cell_index, new_bit);
            cell_index += 1;
        }
        proof {
            assert(bit_seq(self.state_next) =~= next_gen(r0, w0, orig));
        }
        core::mem::swap(&mut self.state, &mut self.state_next);
    }

    /// Extract the three bits representing a cell and its neighbors,
    /// returned as a byte in `[0, 8)`.
    fn cell_neighbors(&self, c_idx: usize) -> (r: u8)
        requires
            self.wf(),
            c_idx < self.size(),
        ensures
            r as int == neighborhood(self@, self.wrap(), c_idx as int),
            r < 8,
    {
        // get the state of each cell, with bounds handling that wraps if
        // appropriate and otherwise reads a missing neighbor as dead
        let left: bool = match (c_idx == 0, self.wrap) {
            (true, true) => bv_get(&self.state, self.size - 1).unwrap(),  // first cell and wrapping
            (true, false) => false,  // first cell and not wrapping
            (_, _) => bv_get(&self.state, c_idx - 1).unwrap(),  // any other case
        };
        let right: bool = match (c_idx == self.size - 1, self.wrap) {
            (true, true) => bv_get(&self.state, 0).unwrap(),  // last cell and wrapping
            (true, false) => false,  // last cell and not wrapping
            (_, _) => bv_get(&self.state, c_idx + 1).unwrap(),  // any other case
        };
        let cell: bool = bv_get(&self.state, c_idx).unwrap();
        // combine the bits into a byte
        (if left { 4u8 } else { 0u8 }) + (if cell { 2u8 } else { 0u8 }) + (if right { 1u8 } else { 0u8 })
    }
}

/// Get the three bits representing a single cell and its neighbors,
/// encoded as `left*4 + center*2 + right`. If `wrap` is true, the first
/// and last cells are considered neighbors; otherwise any neighbor out of
/// bounds is considered dead. An out-of-bounds cell index gives 0.
pub fn cell_neighbors(cell_idx: usize, world: &bit_vec::BitVec, wrap: bool) -> (r: u8)
    ensures
        cell_idx < bit_seq(*world).len() ==> r as int == neighborhood(
            bit_seq(*world),
            wrap,
            cell_idx as int,
        ),
        cell_idx >= bit_seq(*world).len() ==> r == 0,
        r < 8,
{
    let len: usize = bv_len(world);
    match bv_get(world, cell_idx) {
        Some(cell) => {
            let left: bool = if cell_idx == 0 {
                if wrap {
                    bv_get(world, len - 1).unwrap()
                } else {
                    false
                }
            } else {
                bv_get(world, cell_idx - 1).unwrap()
            };
            let right: bool = if cell_idx == len - 1 {
                if wrap {
                    bv_get(world, 0).unwrap()
                } else {
                    false
                }
            } else {
                bv_get(world, cell_idx + 1).unwrap()
            };
            (if left { 4u8 } else { 0u8 }) + (if cell { 2u8 } else { 0u8 }) + (if right {
                1u8
            } else {
                0u8
            })
        },
        None => 0,
    }
}

/// Relies on `String::push`: appends exactly the given character to the
/// end of the string.
pub assume_specification[ String::push ](s: &mut String, ch: char)
    ensures
        final(s)@ == old(s)@.push(ch),
;

/// Simple function to render a bit vector as one character per cell in
/// index order: `live` for a set bit and `dead` for a clear one.
pub fn format_bitvec(bv: &bit_vec::BitVec, dead: char, live: char) -> (r: String)
    ensures
        r@ == bit_seq(*bv).map(|_i: int, b: bool| if b { live } else { dead }),
{
    let len: usize = bv_len(bv);
    let mut buffer: String = String::new();
    let mut i: usize = 0;
    while i < len
        invariant
            len == bit_seq(*bv).len(),
            i <= len,
            buffer@.len() == i,
            forall|j: int| 0 <= j < i ==> buffer@[j] == (if bit_seq(*bv)[j] { live } else { dead }),
        decreases len - i,
    {
        if bv_get(bv, i).unwrap() {
            buffer.push(live);
        } else {
            buffer.push(dead);
        }
        i += 1;
    }
    proof {
        assert(buffer@ =~= bit_seq(*bv).map(|_i: int, b: bool| if b { live } else { dead }));
    }
    buffer
}

/// Relies on `String::clear`: empties the string, keeping its buffer.
pub assume_specification[ String::clear ](s: &mut String)
    ensures
        final(s)@ == Seq::<char>::empty(),
;

/// Format a World into a String buffer, reusing the buffer's allocation:
/// after the call it holds one character per cell in index order, `live`
/// for a live cell and `dead` for a dead one.
pub fn format_world(buffer: &mut String, world: &World, dead: char, live: char)
    ensures
        final(buffer)@ == world@.map(|_i: int, b: bool| if b { live } else { dead }),
{
    buffer.clear();
    let state = world.get_state();
    let len: usize = bv_len(state);
    let mut i: usize = 0;
    while i < len
        invariant
            len == world@.len(),
            bit_seq(*state) == world@,
            i <= len,
            buffer@.len() == i,
            forall|j: int| 0 <= j < i ==> buffer@[j] == (if world@[j] { live } else { dead }),
        decreases len - i,
    {
        if bv_get(state, i).unwrap() {
            buffer.push(live);
        } else {
            buffer.push(dead);
        }
        i += 1;
    }
    proof {
        assert(buffer@ =~= world@.map(|_i: int, b: bool| if b { live } else { dead }));
    }
}

/// Stepping is deterministic: the next generation is a function of the
/// rule byte, the wrap flag and the current state alone, so equal inputs
/// always produce an identical next state.
pub proof fn lemma_step_deterministic(rule: u8, wrap: bool, s1: Seq<bool>, s2: Seq<bool>)
    requires
        s1 == s2,
    ensures
        next_gen(rule, wrap, s1) == next_gen(rule, wrap, s2),
{
}

/// The update is simultaneous: each cell of the next generation is read
/// off the previous generation's neighborhood alone, never off an
/// already-updated cell of the new one, and the whole row advances at
/// once.
pub proof fn lemma_step_simultaneous(rule: u8, wrap: bool, s: Seq<bool>, i: int)
    requires
        0 <= i < s.len(),
    ensures
        next_gen(rule, wrap, s).len() == s.len(),
        next_gen(rule, wrap, s)[i] == rule_bit(rule, neighborhood(s, wrap, i)),
{
}

} // verus!
