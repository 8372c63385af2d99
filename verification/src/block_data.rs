//! The preprocessor's record of open structured regions: blocks, loops
//! and conditionals, with the operand-stack depth each one opened at.
use vstd::prelude::*;
use vstd::string::*;
use std::rc::Rc;

use crate::calx::CalxType;
use crate::host::rc_dup;

verus! {

/// One open structured region.
#[derive(Debug, PartialEq)]
pub enum BlockData {
    /// A `block`: a branch to it jumps past its end.
    Block {
        params_types: Rc<Vec<CalxType>>,
        ret_types: Rc<Vec<CalxType>>,
        to: usize,
        initial_stack_size: usize,
    },
    /// A `loop`: a branch to it jumps back to its start.
    Loop {
        params_types: Rc<Vec<CalxType>>,
        ret_types: Rc<Vec<CalxType>>,
        from: usize,
        to: usize,
        initial_stack_size: usize,
    },
    /// An `if`: its branch ends must land at one agreed depth.
    If { ret_types: Rc<Vec<CalxType>>, else_to: usize, to: usize, initial_stack_size: usize },
}

/// Whether the region is a `block` or `loop` — what a depth-indexed
/// branch may target, `if` regions being skipped.
pub open spec fn is_block_or_loop(b: BlockData) -> bool {
    b matches BlockData::Block { .. } || b matches BlockData::Loop { .. }
}

/// The region opened with at least as many operands as it consumes: a
/// `block` or `loop` with its parameters, an `if` with its predicate.
pub open spec fn block_wf(b: BlockData) -> bool {
    match b {
        BlockData::Block { params_types, initial_stack_size, .. } => initial_stack_size
            >= params_types@.len(),
        BlockData::Loop { params_types, initial_stack_size, .. } => initial_stack_size
            >= params_types@.len(),
        BlockData::If { initial_stack_size, .. } => initial_stack_size >= 1,
    }
}

/// The operand-stack depth a region must show at its end, or at a branch
/// to it: the depth it opened at, minus what it consumed, plus what it
/// returns.
pub open spec fn spec_expected_finish_size(b: BlockData) -> int {
    match b {
        BlockData::Block { params_types, ret_types, initial_stack_size, .. } => initial_stack_size
            - params_types@.len() + ret_types@.len(),
        BlockData::Loop { params_types, ret_types, initial_stack_size, .. } => initial_stack_size
            - params_types@.len() + ret_types@.len(),
        BlockData::If { ret_types, initial_stack_size, .. } => initial_stack_size - 1
            + ret_types@.len(),
    }
}

impl BlockData {
    /// The operand-stack depth expected when the region finishes or is
    /// branched to.
    pub fn expected_finish_size(&self) -> (r: usize)
        requires
            block_wf(*self),
            spec_expected_finish_size(*self) <= usize::MAX,
        ensures
            r == spec_expected_finish_size(*self),
    {
        match self {
            BlockData::Block { params_types, ret_types, initial_stack_size, .. } => {
                initial_stack_size - params_types.len() + ret_types.len()
            },
            BlockData::Loop { params_types, ret_types, initial_stack_size, .. } => {
                initial_stack_size - params_types.len() + ret_types.len()
            },
            BlockData::If { ret_types, initial_stack_size, .. } => {
                initial_stack_size - 1 + ret_types.len()
            },
        }
    }

    /// A copy of the region record; the type sequences are shared.
    pub fn dup(&self) -> (r: BlockData)
        ensures
            r == *self,
    {
        match self {
            BlockData::Block { params_types, ret_types, to, initial_stack_size } => {
                BlockData::Block {
                    params_types: rc_dup(params_types),
                    ret_types: rc_dup(ret_types),
                    to: *to,
                    initial_stack_size: *initial_stack_size,
                }
            },
            BlockData::Loop { params_types, ret_types, from, to, initial_stack_size } => {
                BlockData::Loop {
                    params_types: rc_dup(params_types),
                    ret_types: rc_dup(ret_types),
                    from: *from,
                    to: *to,
                    initial_stack_size: *initial_stack_size,
                }
            },
            BlockData::If { ret_types, else_to, to, initial_stack_size } => {
                BlockData::If {
                    ret_types: rc_dup(ret_types),
                    else_to: *else_to,
                    to: *to,
                    initial_stack_size: *initial_stack_size,
                }
            },
        }
    }
}

/// The stack of regions open around the preprocessor's current position,
/// innermost last.
#[derive(Debug, PartialEq)]
pub struct BlockStack {
    pub stack: Vec<BlockData>,
}

impl View for BlockStack {
    type V = Seq<BlockData>;

    open spec fn view(&self) -> Seq<BlockData> {
        self.stack@
    }
}

/// The position of the `block` or `loop` a branch of this depth targets:
/// counted from the top, skipping `if` regions, depth `0` being the
/// innermost `block` or `loop`.
pub open spec fn block_index_at(s: Seq<BlockData>, level: nat) -> Option<int>
    decreases s.len(),
{
    if s.len() == 0 {
        None
    } else if is_block_or_loop(s.last()) {
        if level == 0 {
            Some(s.len() - 1)
        } else {
            block_index_at(s.drop_last(), (level - 1) as nat)
        }
    } else {
        block_index_at(s.drop_last(), level)
    }
}

/// A found region sits in the stack and is a `block` or `loop`.
pub proof fn lemma_block_index_at(s: Seq<BlockData>, level: nat)
    ensures
        block_index_at(s, level) matches Some(j) ==> 0 <= j < s.len() && is_block_or_loop(s[j]),
    decreases s.len(),
{
    if s.len() > 0 {
        if is_block_or_loop(s.last()) {
            if level > 0 {
                lemma_block_index_at(s.drop_last(), (level - 1) as nat);
            }
        } else {
            lemma_block_index_at(s.drop_last(), level);
        }
    }
}

impl BlockStack {
    /// An empty region stack.
    pub fn new() -> (r: BlockStack)
        ensures
            r@ == Seq::<BlockData>::empty(),
    {
        BlockStack { stack: Vec::new() }
    }

    /// Opens a region.
    pub fn push(&mut self, block: BlockData)
        ensures
            final(self)@ == old(self)@.push(block),
    {
        self.stack.push(block);
    }

    /// Whether no region is open.
    pub fn is_empty(&self) -> (r: bool)
        ensures
            r == (self@.len() == 0),
    {
        self.stack.is_empty()
    }

    /// How many regions are open.
    pub fn len(&self) -> (r: usize)
        ensures
            r == self@.len(),
    {
        self.stack.len()
    }

    /// Closes the innermost region, which must be an `if`; anything else
    /// is refused (and, as in the pop itself, removed).
    pub fn pop_if(&mut self) -> (r: Result<BlockData, String>)
        ensures
            old(self)@.len() == 0 ==> r is Err && final(self)@ == old(self)@,
            old(self)@.len() > 0 ==> final(self)@ == old(self)@.drop_last(),
            old(self)@.len() > 0 ==> (old(self)@.last() matches BlockData::If { .. } ==> r
                == Ok::<BlockData, String>(old(self)@.last())),
            old(self)@.len() > 0 ==> (!(old(self)@.last() matches BlockData::If { .. }) ==> r
                is Err),
    {
        match self.stack.pop() {
            None => Err(String::from_str("no block found on stack")),
            Some(b) => match b {
                BlockData::If { .. } => Ok(b),
                _ => Err(String::from_str("expected an if region")),
            },
        }
    }

    /// Reads the innermost region, which must be an `if`.
    pub fn peek_if(&self) -> (r: Result<&BlockData, String>)
        ensures
            self@.len() > 0 ==> (self@.last() matches BlockData::If { .. } ==> ({
                &&& r matches Ok(b)
                &&& *b == self@.last()
            })),
            !(self@.len() > 0 && self@.last() matches BlockData::If { .. }) ==> r is Err,
    {
        if self.stack.len() == 0 {
            return Err(String::from_str("no block found on stack"));
        }
        let b = &self.stack[self.stack.len() - 1];
        match b {
            BlockData::If { .. } => Ok(b),
            _ => Err(String::from_str("expected an if region")),
        }
    }

    /// Closes the innermost `block` or `loop`, discarding any `if`
    /// regions above it; refused when none is open.
    pub fn pop_block(&mut self) -> (r: Result<BlockData, String>)
        ensures
            block_index_at(old(self)@, 0) matches Some(j) ==> ({
                &&& r == Ok::<BlockData, String>(old(self)@[j])
                &&& final(self)@ == old(self)@.take(j)
            }),
            block_index_at(old(self)@, 0) is None ==> r is Err && final(self)@ == Seq::<
                BlockData,
            >::empty(),
    {
        let ghost orig = old(self)@;
        proof {
            assert(orig.take(orig.len() as int) =~= orig);
        }
        loop
            invariant
                orig == old(self)@,
                self@.len() <= orig.len(),
                self@ == orig.take(self@.len() as int),
                block_index_at(orig, 0) == block_index_at(self@, 0),
            decreases self@.len(),
        {
            let ghost cur = self@;
            match self.stack.pop() {
                None => {
                    return Err(String::from_str("no block found on stack"));
                },
                Some(b) => {
                    proof {
                        assert(cur.drop_last() =~= orig.take(cur.len() - 1));
                        assert(self@ == cur.drop_last());
                        assert(b == cur.last());
                    }
                    match b {
                        BlockData::If { .. } => {},
                        _ => {
                            proof {
                                assert(is_block_or_loop(cur.last()));
                                assert(block_index_at(cur, 0) == Some(cur.len() - 1));
                                assert(b == orig[cur.len() - 1]);
                            }
                            return Ok(b);
                        },
                    }
                },
            }
        }
    }

    /// Reads the innermost `block` or `loop`, skipping any `if` regions
    /// above it.
    pub fn peek_block(&self) -> (r: Result<&BlockData, String>)
        ensures
            block_index_at(self@, 0) matches Some(j) ==> ({
                &&& r matches Ok(b)
                &&& *b == self@[j]
            }),
            block_index_at(self@, 0) is None ==> r is Err,
    {
        self.peek_block_level(0)
    }

    /// Reads the `block` or `loop` a branch of this depth targets: depth
    /// `0` is the innermost, `if` regions are skipped and do not count.
    pub fn peek_block_level(&self, level: usize) -> (r: Result<&BlockData, String>)
        ensures
            block_index_at(self@, level as nat) matches Some(j) ==> ({
                &&& r matches Ok(b)
                &&& *b == self@[j]
            }),
            block_index_at(self@, level as nat) is None ==> r is Err,
    {
        let mut i: usize = self.stack.len();
        let mut remaining: usize = level;
        proof {
            assert(self@.take(i as int) =~= self@);
        }
        while i > 0
            invariant
                0 <= i <= self@.len(),
                block_index_at(self@, level as nat) == block_index_at(
                    self@.take(i as int),
                    remaining as nat,
                ),
            decreases i,
        {
            proof {
                assert(self@.take(i as int).drop_last() =~= self@.take(i - 1));
                assert(self@.take(i as int).last() == self@[i - 1]);
            }
            let b = &self.stack[i - 1];
            match b {
                BlockData::If { .. } => {},
                _ => {
                    if remaining == 0 {
                        return Ok(b);
                    }
                    remaining = remaining - 1;
                },
            }
            i = i - 1;
        }
        proof {
            assert(self@.take(0int) =~= Seq::<BlockData>::empty());
        }
        Err(String::from_str("no block found on stack"))
    }
}

} // verus!
