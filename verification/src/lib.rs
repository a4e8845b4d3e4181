//! Runtime support for programs compiled from Dafny: unbounded integers and
//! persistent sequences, sets, maps and multisets with value semantics.
//!
//! Every collection has a view, the mathematical value it stands for, and
//! every operation says over that view what it returns. The collections
//! copy their elements with `clone` and find them by `==` and by hash; what
//! they promise, they promise for element types of which
//! [`model::obeys_clone_model`] and vstd's `obeys_key_model` hold.

pub mod array;
pub mod bag;
pub mod bigint;
pub mod chars;
pub mod dafny_int;
pub mod dafny_map;
pub mod dafny_multiset;
pub mod dafny_runtime_conversions;
pub mod dafny_set;
pub mod dafny_type;
pub mod decimal;
pub mod euclid;
pub mod images;
pub mod laws;
pub mod model;
pub mod object;
pub mod placebo;
pub mod range;
pub mod rcmut;
pub mod sequence;
pub mod text;
pub mod walk;

pub use crate::chars::char_lt;
pub use crate::chars::DafnyChar;
pub use crate::chars::DafnyCharUTF16;
pub use crate::chars::DafnyString;
pub use crate::chars::DafnyStringUTF16;
pub use crate::dafny_int::DafnyInt;
pub use crate::dafny_map::DafnyMap;
pub use crate::dafny_map::MapBuilder;
pub use crate::dafny_multiset::DafnyMultiset;
pub use crate::dafny_set::DafnySet;
pub use crate::dafny_set::SetBuilder;
pub use crate::dafny_type::DafnyType;
pub use crate::dafny_type::DafnyTypeEq;
pub use crate::dafny_type::NontrivialDefault;
pub use crate::dafny_type::UpcastTo;
pub use crate::euclid::dafny_rational_to_int;
pub use crate::euclid::dafny_rational_to_int_checked;
pub use crate::euclid::euclidian_division;
pub use crate::euclid::euclidian_modulo;
pub use crate::object::nullable_referential_equality;
pub use crate::object::FunctionWrapper;
pub use crate::object::Object;
pub use crate::placebo::MaybePlacebo;
pub use crate::range::exact_range;
pub use crate::range::integer_range;
pub use crate::range::integer_range_down;
pub use crate::range::integer_range_down_unbounded;
pub use crate::range::integer_range_unbounded;
pub use crate::range::ExactPool;
pub use crate::range::IntegerRange;
pub use crate::range::IntegerRangeDown;
pub use crate::range::IntegerRangeDownUnbounded;
pub use crate::range::IntegerRangeUnbounded;
pub use crate::sequence::Sequence;
pub use crate::sequence::SequenceIter;
pub use crate::text::string_of;
pub use crate::text::string_utf16_of;
