//! A collection of small, self-contained utility primitives: a bump/arena
//! allocator with exponential chunk growth (the heart of the crate), fixed
//! capacity collections, a bit set, a minimum-priority heap, numeric trait
//! hierarchies and assorted helpers.  Every function is verified against
//! its contract.

mod algebra;
mod arena;
mod atomic;
mod bitset;
mod collections;
mod heap;
mod manytimescell;
mod misc;
mod numtraits;
mod ptrext;
mod rand;
mod search;
mod uninit;
mod utils;

pub use algebra::AbelianGroup;
pub use algebra::AbelianGroupInplace;
pub use algebra::CommutativeRing;
pub use algebra::CommutativeRingInplace;
pub use algebra::Field;
pub use algebra::FieldInplace;
pub use algebra::Group;
pub use algebra::GroupInplace;
pub use algebra::Magma;
pub use algebra::MagmaInplace;
pub use algebra::Module;
pub use algebra::ModuleInplace;
pub use algebra::Monoid;
pub use algebra::MonoidInplace;
pub use algebra::Ring;
pub use algebra::RingInplace;
pub use algebra::SemiGroup;
pub use algebra::SemiGroupInplace;
pub use algebra::VectorSpace;
pub use algebra::VectorSpaceInplace;
pub use arena::Arena;
pub use arena::Slot;
pub use arena::align_pad;
pub use atomic::Atomic;
pub use atomic::AtomicPrimitive;
pub use bitset::BitSet;
pub use bitset::bit_of;
pub use collections::ArrayMap;
pub use collections::ArrayMapConstructor;
pub use collections::ArraySet;
pub use collections::ArraySetConstructor;
pub use collections::ArrayVec;
pub use collections::MapConstructor;
pub use collections::MapOps;
pub use collections::SetConstructor;
pub use collections::SetOps;
pub use collections::has_elem_in;
pub use collections::has_key_in;
pub use collections::key_index_in;
pub use collections::hyperloglog::HyperLogLog;
pub use collections::hyperloglog::REGISTER_COUNT;
pub use collections::hyperloglog::max_u8;
pub use heap::MinHeap;
pub use heap::heap_ordered;
pub use heap::heap_ordered_except;
pub use heap::heap_ordered_except_below;
pub use heap::heap_parent;
pub use manytimescell::ManyTimesCell;
pub use misc::ExtForIgnore;
pub use misc::ExtForOption;
pub use misc::ExtForResult;
pub use misc::IsTrue;
pub use misc::SizedExtForApply;
pub use numtraits::Arithmetic;
pub use numtraits::BitOps;
pub use numtraits::Integer;
pub use numtraits::One;
pub use numtraits::Zero;
pub use numtraits::ceil_div;
pub use numtraits::floor_div;
pub use numtraits::one;
pub use numtraits::round_to_multiple;
pub use numtraits::zero;
pub use ptrext::SizedExtForLeak;
pub use ptrext::leak;
pub use rand::Xorshift32;
pub use rand::xorshift32_step;
pub use search::binary_search;
pub use uninit::FullBitPrimitive;
pub use uninit::NewUninitPrimitive;
pub use uninit::VecExtForPrimitives;
pub use uninit::new_uninit_primitive;
pub use utils::MonadExt;
pub use utils::ResultExt;
pub use utils::SizedMonadExt;
