use vstd::prelude::*;
use crate::address::MemoryAddress;
use crate::bit_size::BitSize;
use crate::bit_size::IntegerBitSize;

verus! {

broadcast use vstd::std_specs::vec::group_vec_axioms;

/// Describes the memory layout of an array or vector element: a recursive
/// shape descriptor that the interpreter walks in lock-step with flat memory
/// when marshaling values across the foreign-call boundary.
#[derive(Debug, PartialEq, Eq, Hash)]
pub enum HeapValueType {
    /// A single cell holding a value of the given width.
    Simple(BitSize),
    /// A pointer to a fixed-length sequence of `size` elements whose shapes
    /// follow `value_types` (round-robin where several are listed).
    Array { value_types: Vec<HeapValueType>, size: usize },
    /// A pointer to a variable-length sequence whose element shapes follow
    /// `value_types`; the length is carried alongside at run time.
    Vector { value_types: Vec<HeapValueType> },
}

/// The mathematical shape of a `HeapValueType`: the same tree with sequences
/// for the element lists.
#[verifier::ext_equal]
pub enum HeapValueTypeView {
    Simple(BitSize),
    Array { value_types: Seq<HeapValueTypeView>, size: usize },
    Vector { value_types: Seq<HeapValueTypeView> },
}

/// The shape of `t` as a mathematical value.
pub open spec fn hvt_view(t: HeapValueType) -> HeapValueTypeView
    decreases t,
{
    match t {
        HeapValueType::Simple(b) => HeapValueTypeView::Simple(b),
        HeapValueType::Array { value_types, size } => HeapValueTypeView::Array {
            value_types: shapes_of(value_types@),
            size: size,
        },
        HeapValueType::Vector { value_types } => HeapValueTypeView::Vector {
            value_types: shapes_of(value_types@),
        },
    }
}

/// The shapes of a list of `HeapValueType`s, elementwise.
pub open spec fn shapes_of(s: Seq<HeapValueType>) -> Seq<HeapValueTypeView>
    decreases s,
{
    if s.len() == 0 {
        Seq::empty()
    } else {
        seq![hvt_view(s[0])] + shapes_of(s.drop_first())
    }
}

/// `shapes_of` maps `hvt_view` over the list, elementwise.
pub proof fn lemma_shapes_of(s: Seq<HeapValueType>)
    ensures
        shapes_of(s).len() == s.len(),
        forall|i: int| 0 <= i < s.len() ==> #[trigger] shapes_of(s)[i] == hvt_view(s[i]),
    decreases s.len(),
{
    if s.len() > 0 {
        lemma_shapes_of(s.drop_first());
    }
}

impl View for HeapValueType {
    type V = HeapValueTypeView;

    open spec fn view(&self) -> HeapValueTypeView {
        hvt_view(*self)
    }
}

impl Clone for HeapValueType {
    /// The clone has the same shape.
    fn clone(&self) -> (r: Self)
        ensures
            r@ == self@,
        decreases *self,
    {
        match self {
            HeapValueType::Simple(b) => HeapValueType::Simple(*b),
            HeapValueType::Array { value_types, size } => {
                let cloned = clone_shape_vec(value_types);
                let r = HeapValueType::Array { value_types: cloned, size: *size };
                proof {
                    lemma_shapes_of(cloned@);
                    lemma_shapes_of(value_types@);
                    assert(shapes_of(cloned@) =~= shapes_of(value_types@));
                    assert(r@ =~= self@);
                }
                r
            },
            HeapValueType::Vector { value_types } => {
                let cloned = clone_shape_vec(value_types);
                let r = HeapValueType::Vector { value_types: cloned };
                proof {
                    lemma_shapes_of(cloned@);
                    lemma_shapes_of(value_types@);
                    assert(shapes_of(cloned@) =~= shapes_of(value_types@));
                    assert(r@ =~= self@);
                }
                r
            },
        }
    }
}

/// Clones a list of shapes element by element; the shapes are kept.
fn clone_shape_vec(v: &Vec<HeapValueType>) -> (r: Vec<HeapValueType>)
    ensures
        r@.len() == v@.len(),
        forall|i: int| 0 <= i < v@.len() ==> #[trigger] hvt_view(r@[i]) == hvt_view(v@[i]),
    decreases v@,
{
    let mut r: Vec<HeapValueType> = Vec::new();
    let mut j: usize = 0;
    while j < v.len()
        invariant
            0 <= j <= v@.len(),
            r@.len() == j,
            forall|i: int| 0 <= i < j ==> #[trigger] hvt_view(r@[i]) == hvt_view(v@[i]),
        decreases v@.len() - j,
    {
        r.push(v[j].clone());
        j = j + 1;
    }
    r
}

impl HeapValueType {
    /// True exactly when every element of `types` is a `Simple` shape; array
    /// and vector elements, however simple inside, fail it.
    pub fn all_simple(types: &[HeapValueType]) -> (r: bool)
        ensures
            r == (forall|i: int| 0 <= i < types@.len() ==> types@[i] is Simple),
    {
        let mut j: usize = 0;
        while j < types.len()
            invariant
                0 <= j <= types@.len(),
                forall|i: int| 0 <= i < j ==> types@[i] is Simple,
            decreases types@.len() - j,
        {
            match &types[j] {
                HeapValueType::Simple(_) => {
                },
                _ => {
                    return false;
                },
            }
            j = j + 1;
        }
        true
    }

    /// A simple scalar cell of the native field's width.
    pub fn field() -> (r: HeapValueType)
        ensures
            r == HeapValueType::Simple(BitSize::Field),
    {
        HeapValueType::Simple(BitSize::Field)
    }
}

/// `m` nests at most `d` levels of arrays or vectors below itself.
pub open spec fn depth_within(m: HeapValueTypeView, d: nat) -> bool
    decreases m,
{
    match m {
        HeapValueTypeView::Simple(_) => true,
        HeapValueTypeView::Array { value_types, .. } => d > 0 && seq_depth_within(
            value_types,
            (d - 1) as nat,
        ),
        HeapValueTypeView::Vector { value_types } => d > 0 && seq_depth_within(
            value_types,
            (d - 1) as nat,
        ),
    }
}

pub open spec fn seq_depth_within(ms: Seq<HeapValueTypeView>, d: nat) -> bool
    decreases ms,
{
    if ms.len() == 0 {
        true
    } else {
        depth_within(ms[0], d) && seq_depth_within(ms.drop_first(), d)
    }
}

proof fn lemma_seq_depth_within(ms: Seq<HeapValueTypeView>, d: nat)
    requires
        forall|i: int| 0 <= i < ms.len() ==> depth_within(#[trigger] ms[i], d),
    ensures
        seq_depth_within(ms, d),
    decreases ms.len(),
{
    if ms.len() > 0 {
        assert(forall|i: int|
            0 <= i < ms.drop_first().len() ==> #[trigger] ms.drop_first()[i] == ms[i + 1]);
        lemma_seq_depth_within(ms.drop_first(), d);
    }
}

/// Every array or vector anywhere in `m` carries between 1 and `b` elements.
pub open spec fn breadth_within(m: HeapValueTypeView, b: nat) -> bool
    decreases m,
{
    match m {
        HeapValueTypeView::Simple(_) => true,
        HeapValueTypeView::Array { value_types, .. } => 1 <= value_types.len() <= b
            && seq_breadth_within(value_types, b),
        HeapValueTypeView::Vector { value_types } => 1 <= value_types.len() <= b
            && seq_breadth_within(value_types, b),
    }
}

pub open spec fn seq_breadth_within(ms: Seq<HeapValueTypeView>, b: nat) -> bool
    decreases ms,
{
    if ms.len() == 0 {
        true
    } else {
        breadth_within(ms[0], b) && seq_breadth_within(ms.drop_first(), b)
    }
}

proof fn lemma_seq_breadth_within(ms: Seq<HeapValueTypeView>, b: nat)
    requires
        forall|i: int| 0 <= i < ms.len() ==> breadth_within(#[trigger] ms[i], b),
    ensures
        seq_breadth_within(ms, b),
    decreases ms.len(),
{
    if ms.len() > 0 {
        assert(forall|i: int|
            0 <= i < ms.drop_first().len() ==> #[trigger] ms.drop_first()[i] == ms[i + 1]);
        lemma_seq_breadth_within(ms.drop_first(), b);
    }
}

/// The next state of a linear-congruential walk through the seeds.
fn next_seed(seed: u64) -> u64 {
    seed.wrapping_mul(6364136223846793005).wrapping_add(1442695040888963407)
}

impl HeapValueType {
    /// Deterministically derives a shape from `seed`: a depth-bounded
    /// replacement for randomized shape generation in property tests. The
    /// result nests at most `max_depth` levels, and each array or vector
    /// carries between 1 and `max_breadth` elements (at least one even when
    /// `max_breadth` is 0).
    pub fn generate(seed: u64, max_depth: u64, max_breadth: u64) -> (r: HeapValueType)
        ensures
            depth_within(r@, max_depth as nat),
            breadth_within(
                r@,
                if max_breadth == 0 {
                    1nat
                } else {
                    max_breadth as nat
                },
            ),
        decreases max_depth,
    {
        let kind: u64 = if max_depth == 0 {
            0
        } else {
            seed % 3
        };
        if kind == 0 {
            let w = seed % 7;
            let b = if w == 0 {
                BitSize::Field
            } else if w == 1 {
                BitSize::Integer(IntegerBitSize::U1)
            } else if w == 2 {
                BitSize::Integer(IntegerBitSize::U8)
            } else if w == 3 {
                BitSize::Integer(IntegerBitSize::U16)
            } else if w == 4 {
                BitSize::Integer(IntegerBitSize::U32)
            } else if w == 5 {
                BitSize::Integer(IntegerBitSize::U64)
            } else {
                BitSize::Integer(IntegerBitSize::U128)
            };
            HeapValueType::Simple(b)
        } else {
            let breadth: u64 = if max_breadth == 0 {
                1
            } else {
                max_breadth
            };
            let count: u64 = 1 + next_seed(seed) % breadth;
            let mut children: Vec<HeapValueType> = Vec::new();
            let mut s: u64 = next_seed(seed);
            let mut j: u64 = 0;
            while j < count
                invariant
                    forall|i: int|
                        0 <= i < children@.len() ==> depth_within(
                            #[trigger] hvt_view(children@[i]),
                            (max_depth - 1) as nat,
                        ),
                    forall|i: int|
                        0 <= i < children@.len() ==> breadth_within(
                            #[trigger] hvt_view(children@[i]),
                            if max_breadth == 0 {
                                1nat
                            } else {
                                max_breadth as nat
                            },
                        ),
                    j <= count,
                    children@.len() == j,
                    max_depth >= 1,
                    breadth == (if max_breadth == 0 {
                        1u64
                    } else {
                        max_breadth
                    }),
                    1 <= count <= breadth,
                decreases count - j,
            {
                s = next_seed(s);
                let child = Self::generate(s, max_depth - 1, max_breadth);
                children.push(child);
                j = j + 1;
            }
            proof {
                let b: nat = if max_breadth == 0 {
                    1nat
                } else {
                    max_breadth as nat
                };
                lemma_shapes_of(children@);
                lemma_seq_depth_within(shapes_of(children@), (max_depth - 1) as nat);
                lemma_seq_breadth_within(shapes_of(children@), b);
            }
            if kind == 1 {
                let size = (s % 8) as usize;
                HeapValueType::Array { value_types: children, size }
            } else {
                HeapValueType::Vector { value_types: children }
            }
        }
    }
}

/// A fixed-size array resident on the heap: a pointer and the fixed element
/// count.
#[derive(Debug, Clone, Copy, PartialEq, Eq, Hash, Structural)]
pub struct HeapArray {
    pub pointer: MemoryAddress,
    pub size: usize,
}

impl Default for HeapArray {
    /// An empty placeholder array at direct address 0; callers must not
    /// dereference it without checking the size.
    fn default() -> (r: Self)
        ensures
            r == (HeapArray { pointer: MemoryAddress::Direct(0), size: 0 }),
    {
        HeapArray { pointer: MemoryAddress::direct(0), size: 0 }
    }
}

/// A vector resident on the heap: a pointer, and the address from which the
/// element count is read at execution time.
#[derive(Debug, Clone, Copy, PartialEq, Eq, Hash, Structural)]
pub struct HeapVector {
    pub pointer: MemoryAddress,
    pub size: MemoryAddress,
}

/// How a foreign call's parameter or result is passed: a scalar cell, a
/// fixed-size heap region, or a dynamically-sized heap region. Used
/// identically for inputs and outputs.
#[derive(Debug, Clone, Copy, PartialEq, Eq, Hash, Structural)]
pub enum ValueOrArray {
    /// An immediate value, read from or written to memory without
    /// dereferencing.
    MemoryAddress(MemoryAddress),
    /// A fixed-size region: `size` cells beginning at `pointer`.
    HeapArray(HeapArray),
    /// A dynamically-sized region: as many cells as the `size` address holds.
    HeapVector(HeapVector),
}

} // verus!
