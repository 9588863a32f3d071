//! Column storage behind a type tag.
//!
//! A table holds its columns with their element types erased, and hands them
//! out again as typed vectors. A column is one variant of `ColumnData`; to
//! treat it as a column of some element type is a test on the variant,
//! which fails for any other type.

use vstd::prelude::*;

verus! {

/// The storage of one column, with its elements' type erased.
#[derive(Debug)]
pub enum ColumnData {
    Bool(Vec<bool>),
    U8(Vec<u8>),
    U16(Vec<u16>),
    U32(Vec<u32>),
    U64(Vec<u64>),
    Usize(Vec<usize>),
    I32(Vec<i32>),
    I64(Vec<i64>),
}

/// What a column holds: its elements, in the order of the rows.
pub enum ColumnView {
    Bool(Seq<bool>),
    U8(Seq<u8>),
    U16(Seq<u16>),
    U32(Seq<u32>),
    U64(Seq<u64>),
    Usize(Seq<usize>),
    I32(Seq<i32>),
    I64(Seq<i64>),
}

impl View for ColumnData {
    type V = ColumnView;

    open spec fn view(&self) -> ColumnView {
        match *self {
            ColumnData::Bool(v) => ColumnView::Bool(v@),
            ColumnData::U8(v) => ColumnView::U8(v@),
            ColumnData::U16(v) => ColumnView::U16(v@),
            ColumnData::U32(v) => ColumnView::U32(v@),
            ColumnData::U64(v) => ColumnView::U64(v@),
            ColumnData::Usize(v) => ColumnView::Usize(v@),
            ColumnData::I32(v) => ColumnView::I32(v@),
            ColumnData::I64(v) => ColumnView::I64(v@),
        }
    }
}

impl ColumnView {
    /// How many rows the column holds.
    pub open spec fn len(self) -> nat {
        match self {
            ColumnView::Bool(s) => s.len(),
            ColumnView::U8(s) => s.len(),
            ColumnView::U16(s) => s.len(),
            ColumnView::U32(s) => s.len(),
            ColumnView::U64(s) => s.len(),
            ColumnView::Usize(s) => s.len(),
            ColumnView::I32(s) => s.len(),
            ColumnView::I64(s) => s.len(),
        }
    }
}

impl ColumnData {
    /// How many rows the column holds.
    pub fn len(&self) -> (n: usize)
        ensures
            n == self@.len(),
    {
        match self {
            ColumnData::Bool(v) => v.len(),
            ColumnData::U8(v) => v.len(),
            ColumnData::U16(v) => v.len(),
            ColumnData::U32(v) => v.len(),
            ColumnData::U64(v) => v.len(),
            ColumnData::Usize(v) => v.len(),
            ColumnData::I32(v) => v.len(),
            ColumnData::I64(v) => v.len(),
        }
    }
}

/// Erased column storage, as a table holds it.
pub type PBox = Box<ColumnData>;

/// The column storage inside its box.
pub fn desync_box<'a>(v: &'a PBox) -> (data: &'a ColumnData)
    ensures
        *data == **v,
{
    &**v
}

/// The column storage inside its box, for writing: what is written through
/// the result is what the box holds afterwards.
pub fn desync_box_mut<'a>(v: &'a mut PBox) -> (data: &'a mut ColumnData)
    ensures
        *data == **old(v),
        **final(v) == *final(data),
{
    &mut **v
}

/// A constructor of empty columns of one concrete type. A table keeps one
/// for each of its columns, to build an empty copy of its own structure.
#[derive(Clone, Copy, Debug, PartialEq, Eq, Structural)]
pub enum Prototyper {
    Bool,
    U8,
    U16,
    U32,
    U64,
    Usize,
    I32,
    I64,
}

impl Prototyper {
    /// The empty column that this constructor builds.
    pub open spec fn empty(self) -> ColumnView {
        match self {
            Prototyper::Bool => ColumnView::Bool(Seq::empty()),
            Prototyper::U8 => ColumnView::U8(Seq::empty()),
            Prototyper::U16 => ColumnView::U16(Seq::empty()),
            Prototyper::U32 => ColumnView::U32(Seq::empty()),
            Prototyper::U64 => ColumnView::U64(Seq::empty()),
            Prototyper::Usize => ColumnView::Usize(Seq::empty()),
            Prototyper::I32 => ColumnView::I32(Seq::empty()),
            Prototyper::I64 => ColumnView::I64(Seq::empty()),
        }
    }

    /// A fresh, empty column.
    pub fn call(&self) -> (data: PBox)
        ensures
            data@ == self.empty(),
    {
        match self {
            Prototyper::Bool => Box::new(ColumnData::Bool(Vec::new())),
            Prototyper::U8 => Box::new(ColumnData::U8(Vec::new())),
            Prototyper::U16 => Box::new(ColumnData::U16(Vec::new())),
            Prototyper::U32 => Box::new(ColumnData::U32(Vec::new())),
            Prototyper::U64 => Box::new(ColumnData::U64(Vec::new())),
            Prototyper::Usize => Box::new(ColumnData::Usize(Vec::new())),
            Prototyper::I32 => Box::new(ColumnData::I32(Vec::new())),
            Prototyper::I64 => Box::new(ColumnData::I64(Vec::new())),
        }
    }
}

/// A type whose values can be stored in a column.
pub trait Storable: Copy + Sized {
    /// The elements of `data`, if it is a column of this type.
    spec fn column_of(data: ColumnView) -> Option<Seq<Self>>;

    /// The column that holds `elements`.
    spec fn erased(elements: Seq<Self>) -> ColumnView;

    /// The constructor of empty columns of this type.
    spec fn spec_prototyper() -> Prototyper;

    /// To erase a column's type and to recover it are inverse to each other,
    /// and the constructor of this type builds a column of this type.
    proof fn lemma_column_of_erased(elements: Seq<Self>)
        ensures
            Self::column_of(Self::erased(elements)) == Some(elements),
            Self::spec_prototyper().empty() == Self::erased(Seq::empty()),
    ;

    proof fn lemma_erased_column_of(data: ColumnView)
        requires
            Self::column_of(data) is Some,
        ensures
            Self::erased(Self::column_of(data)->0) == data,
    ;

    fn prototyper() -> (p: Prototyper)
        ensures
            p == Self::spec_prototyper(),
    ;

    /// Erase the type of a column.
    fn erase(column: Vec<Self>) -> (data: ColumnData)
        ensures
            data@ == Self::erased(column@),
    ;

    /// The column as one of this type, if it is one.
    fn downcast_ref(data: &ColumnData) -> (r: Option<&Vec<Self>>)
        ensures
            match r {
                Some(column) => Self::column_of(data@) == Some(column@),
                None => Self::column_of(data@) is None,
            },
    ;

    /// The column as one of this type, for writing, if it is one. What is
    /// written through the result is what the column holds afterwards.
    fn downcast_mut(data: &mut ColumnData) -> (r: Option<&mut Vec<Self>>)
        ensures
            match r {
                Some(column) => Self::column_of(old(data)@) == Some(column@) && final(data)@
                    == Self::erased(final(column)@),
                None => Self::column_of(old(data)@) is None && *final(data) == *old(data),
            },
    ;
}

impl Storable for bool {
    open spec fn column_of(data: ColumnView) -> Option<Seq<Self>> {
        match data {
            ColumnView::Bool(elements) => Some(elements),
            _ => None,
        }
    }

    open spec fn erased(elements: Seq<Self>) -> ColumnView {
        ColumnView::Bool(elements)
    }

    open spec fn spec_prototyper() -> Prototyper {
        Prototyper::Bool
    }

    proof fn lemma_column_of_erased(elements: Seq<Self>) {
    }

    proof fn lemma_erased_column_of(data: ColumnView) {
    }

    fn prototyper() -> (p: Prototyper) {
        Prototyper::Bool
    }

    fn erase(column: Vec<Self>) -> (data: ColumnData) {
        ColumnData::Bool(column)
    }

    fn downcast_ref(data: &ColumnData) -> (r: Option<&Vec<Self>>) {
        match data {
            ColumnData::Bool(column) => Some(column),
            _ => None,
        }
    }

    fn downcast_mut(data: &mut ColumnData) -> (r: Option<&mut Vec<Self>>) {
        match data {
            ColumnData::Bool(column) => Some(column),
            _ => None,
        }
    }
}

impl Storable for u8 {
    open spec fn column_of(data: ColumnView) -> Option<Seq<Self>> {
        match data {
            ColumnView::U8(elements) => Some(elements),
            _ => None,
        }
    }

    open spec fn erased(elements: Seq<Self>) -> ColumnView {
        ColumnView::U8(elements)
    }

    open spec fn spec_prototyper() -> Prototyper {
        Prototyper::U8
    }

    proof fn lemma_column_of_erased(elements: Seq<Self>) {
    }

    proof fn lemma_erased_column_of(data: ColumnView) {
    }

    fn prototyper() -> (p: Prototyper) {
        Prototyper::U8
    }

    fn erase(column: Vec<Self>) -> (data: ColumnData) {
        ColumnData::U8(column)
    }

    fn downcast_ref(data: &ColumnData) -> (r: Option<&Vec<Self>>) {
        match data {
            ColumnData::U8(column) => Some(column),
            _ => None,
        }
    }

    fn downcast_mut(data: &mut ColumnData) -> (r: Option<&mut Vec<Self>>) {
        match data {
            ColumnData::U8(column) => Some(column),
            _ => None,
        }
    }
}

impl Storable for u16 {
    open spec fn column_of(data: ColumnView) -> Option<Seq<Self>> {
        match data {
            ColumnView::U16(elements) => Some(elements),
            _ => None,
        }
    }

    open spec fn erased(elements: Seq<Self>) -> ColumnView {
        ColumnView::U16(elements)
    }

    open spec fn spec_prototyper() -> Prototyper {
        Prototyper::U16
    }

    proof fn lemma_column_of_erased(elements: Seq<Self>) {
    }

    proof fn lemma_erased_column_of(data: ColumnView) {
    }

    fn prototyper() -> (p: Prototyper) {
        Prototyper::U16
    }

    fn erase(column: Vec<Self>) -> (data: ColumnData) {
        ColumnData::U16(column)
    }

    fn downcast_ref(data: &ColumnData) -> (r: Option<&Vec<Self>>) {
        match data {
            ColumnData::U16(column) => Some(column),
            _ => None,
        }
    }

    fn downcast_mut(data: &mut ColumnData) -> (r: Option<&mut Vec<Self>>) {
        match data {
            ColumnData::U16(column) => Some(column),
            _ => None,
        }
    }
}

impl Storable for u32 {
    open spec fn column_of(data: ColumnView) -> Option<Seq<Self>> {
        match data {
            ColumnView::U32(elements) => Some(elements),
            _ => None,
        }
    }

    open spec fn erased(elements: Seq<Self>) -> ColumnView {
        ColumnView::U32(elements)
    }

    open spec fn spec_prototyper() -> Prototyper {
        Prototyper::U32
    }

    proof fn lemma_column_of_erased(elements: Seq<Self>) {
    }

    proof fn lemma_erased_column_of(data: ColumnView) {
    }

    fn prototyper() -> (p: Prototyper) {
        Prototyper::U32
    }

    fn erase(column: Vec<Self>) -> (data: ColumnData) {
        ColumnData::U32(column)
    }

    fn downcast_ref(data: &ColumnData) -> (r: Option<&Vec<Self>>) {
        match data {
            ColumnData::U32(column) => Some(column),
            _ => None,
        }
    }

    fn downcast_mut(data: &mut ColumnData) -> (r: Option<&mut Vec<Self>>) {
        match data {
            ColumnData::U32(column) => Some(column),
            _ => None,
        }
    }
}

impl Storable for u64 {
    open spec fn column_of(data: ColumnView) -> Option<Seq<Self>> {
        match data {
            ColumnView::U64(elements) => Some(elements),
            _ => None,
        }
    }

    open spec fn erased(elements: Seq<Self>) -> ColumnView {
        ColumnView::U64(elements)
    }

    open spec fn spec_prototyper() -> Prototyper {
        Prototyper::U64
    }

    proof fn lemma_column_of_erased(elements: Seq<Self>) {
    }

    proof fn lemma_erased_column_of(data: ColumnView) {
    }

    fn prototyper() -> (p: Prototyper) {
        Prototyper::U64
    }

    fn erase(column: Vec<Self>) -> (data: ColumnData) {
        ColumnData::U64(column)
    }

    fn downcast_ref(data: &ColumnData) -> (r: Option<&Vec<Self>>) {
        match data {
            ColumnData::U64(column) => Some(column),
            _ => None,
        }
    }

    fn downcast_mut(data: &mut ColumnData) -> (r: Option<&mut Vec<Self>>) {
        match data {
            ColumnData::U64(column) => Some(column),
            _ => None,
        }
    }
}

impl Storable for usize {
    open spec fn column_of(data: ColumnView) -> Option<Seq<Self>> {
        match data {
            ColumnView::Usize(elements) => Some(elements),
            _ => None,
        }
    }

    open spec fn erased(elements: Seq<Self>) -> ColumnView {
        ColumnView::Usize(elements)
    }

    open spec fn spec_prototyper() -> Prototyper {
        Prototyper::Usize
    }

    proof fn lemma_column_of_erased(elements: Seq<Self>) {
    }

    proof fn lemma_erased_column_of(data: ColumnView) {
    }

    fn prototyper() -> (p: Prototyper) {
        Prototyper::Usize
    }

    fn erase(column: Vec<Self>) -> (data: ColumnData) {
        ColumnData::Usize(column)
    }

    fn downcast_ref(data: &ColumnData) -> (r: Option<&Vec<Self>>) {
        match data {
            ColumnData::Usize(column) => Some(column),
            _ => None,
        }
    }

    fn downcast_mut(data: &mut ColumnData) -> (r: Option<&mut Vec<Self>>) {
        match data {
            ColumnData::Usize(column) => Some(column),
            _ => None,
        }
    }
}

impl Storable for i32 {
    open spec fn column_of(data: ColumnView) -> Option<Seq<Self>> {
        match data {
            ColumnView::I32(elements) => Some(elements),
            _ => None,
        }
    }

    open spec fn erased(elements: Seq<Self>) -> ColumnView {
        ColumnView::I32(elements)
    }

    open spec fn spec_prototyper() -> Prototyper {
        Prototyper::I32
    }

    proof fn lemma_column_of_erased(elements: Seq<Self>) {
    }

    proof fn lemma_erased_column_of(data: ColumnView) {
    }

    fn prototyper() -> (p: Prototyper) {
        Prototyper::I32
    }

    fn erase(column: Vec<Self>) -> (data: ColumnData) {
        ColumnData::I32(column)
    }

    fn downcast_ref(data: &ColumnData) -> (r: Option<&Vec<Self>>) {
        match data {
            ColumnData::I32(column) => Some(column),
            _ => None,
        }
    }

    fn downcast_mut(data: &mut ColumnData) -> (r: Option<&mut Vec<Self>>) {
        match data {
            ColumnData::I32(column) => Some(column),
            _ => None,
        }
    }
}

impl Storable for i64 {
    open spec fn column_of(data: ColumnView) -> Option<Seq<Self>> {
        match data {
            ColumnView::I64(elements) => Some(elements),
            _ => None,
        }
    }

    open spec fn erased(elements: Seq<Self>) -> ColumnView {
        ColumnView::I64(elements)
    }

    open spec fn spec_prototyper() -> Prototyper {
        Prototyper::I64
    }

    proof fn lemma_column_of_erased(elements: Seq<Self>) {
    }

    proof fn lemma_erased_column_of(data: ColumnView) {
    }

    fn prototyper() -> (p: Prototyper) {
        Prototyper::I64
    }

    fn erase(column: Vec<Self>) -> (data: ColumnData) {
        ColumnData::I64(column)
    }

    fn downcast_ref(data: &ColumnData) -> (r: Option<&Vec<Self>>) {
        match data {
            ColumnData::I64(column) => Some(column),
            _ => None,
        }
    }

    fn downcast_mut(data: &mut ColumnData) -> (r: Option<&mut Vec<Self>>) {
        match data {
            ColumnData::I64(column) => Some(column),
            _ => None,
        }
    }
}

} // verus!
