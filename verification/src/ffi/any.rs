//! Erased values: data and distances whose type is known only at run time.
use crate::error::{Error, ErrorVariant, Fallible};
use crate::ffi::util::{Atom, Family, Type};
use crate::traits::Number;
use vstd::prelude::*;

verus! {

/// A value of one of the primitive types. Floats are held as their bit
/// patterns: the boundary carries them and never computes on them.
#[derive(Debug)]
pub enum Scalar {
    Bool(bool),
    I8(i8),
    I16(i16),
    I32(i32),
    I64(i64),
    U8(u8),
    U16(u16),
    U32(u32),
    U64(u64),
    F32(u32),
    F64(u64),
    Text(String),
    Unit,
}

/// A scalar as a mathematical value.
pub enum ScalarView {
    Bool(bool),
    I8(i8),
    I16(i16),
    I32(i32),
    I64(i64),
    U8(u8),
    U16(u16),
    U32(u32),
    U64(u64),
    F32(u32),
    F64(u64),
    Text(Seq<char>),
    Unit,
}

impl ScalarView {
    /// The primitive type of the value.
    pub open spec fn atom(self) -> Atom {
        match self {
            ScalarView::Bool(_) => Atom::Bool,
            ScalarView::I8(_) => Atom::I8,
            ScalarView::I16(_) => Atom::I16,
            ScalarView::I32(_) => Atom::I32,
            ScalarView::I64(_) => Atom::I64,
            ScalarView::U8(_) => Atom::U8,
            ScalarView::U16(_) => Atom::U16,
            ScalarView::U32(_) => Atom::U32,
            ScalarView::U64(_) => Atom::U64,
            ScalarView::F32(_) => Atom::F32,
            ScalarView::F64(_) => Atom::F64,
            ScalarView::Text(_) => Atom::Text,
            ScalarView::Unit => Atom::Unit,
        }
    }

    /// The integer that the value stands for, if it is of an integer type.
    pub open spec fn integer(self) -> Option<int> {
        match self {
            ScalarView::I8(v) => Some(v as int),
            ScalarView::I16(v) => Some(v as int),
            ScalarView::I32(v) => Some(v as int),
            ScalarView::I64(v) => Some(v as int),
            ScalarView::U8(v) => Some(v as int),
            ScalarView::U16(v) => Some(v as int),
            ScalarView::U32(v) => Some(v as int),
            ScalarView::U64(v) => Some(v as int),
            _ => None,
        }
    }
}

impl View for Scalar {
    type V = ScalarView;

    open spec fn view(&self) -> ScalarView {
        match self {
            Scalar::Bool(v) => ScalarView::Bool(*v),
            Scalar::I8(v) => ScalarView::I8(*v),
            Scalar::I16(v) => ScalarView::I16(*v),
            Scalar::I32(v) => ScalarView::I32(*v),
            Scalar::I64(v) => ScalarView::I64(*v),
            Scalar::U8(v) => ScalarView::U8(*v),
            Scalar::U16(v) => ScalarView::U16(*v),
            Scalar::U32(v) => ScalarView::U32(*v),
            Scalar::U64(v) => ScalarView::U64(*v),
            Scalar::F32(v) => ScalarView::F32(*v),
            Scalar::F64(v) => ScalarView::F64(*v),
            Scalar::Text(v) => ScalarView::Text(v@),
            Scalar::Unit => ScalarView::Unit,
        }
    }
}

impl Scalar {
    /// The primitive type of the value.
    pub fn atom(&self) -> (r: Atom)
        ensures
            r == self@.atom(),
    {
        match self {
            Scalar::Bool(_) => Atom::Bool,
            Scalar::I8(_) => Atom::I8,
            Scalar::I16(_) => Atom::I16,
            Scalar::I32(_) => Atom::I32,
            Scalar::I64(_) => Atom::I64,
            Scalar::U8(_) => Atom::U8,
            Scalar::U16(_) => Atom::U16,
            Scalar::U32(_) => Atom::U32,
            Scalar::U64(_) => Atom::U64,
            Scalar::F32(_) => Atom::F32,
            Scalar::F64(_) => Atom::F64,
            Scalar::Text(_) => Atom::Text,
            Scalar::Unit => Atom::Unit,
        }
    }

    /// The integer that the value stands for, if it is of an integer type.
    pub fn integer(&self) -> (r: Option<i128>)
        ensures
            match r {
                Some(v) => self@.integer() == Some(v as int),
                None => self@.integer().is_none(),
            },
    {
        match self {
            Scalar::I8(v) => Some(*v as i128),
            Scalar::I16(v) => Some(*v as i128),
            Scalar::I32(v) => Some(*v as i128),
            Scalar::I64(v) => Some(*v as i128),
            Scalar::U8(v) => Some(*v as i128),
            Scalar::U16(v) => Some(*v as i128),
            Scalar::U32(v) => Some(*v as i128),
            Scalar::U64(v) => Some(*v as i128),
            _ => None,
        }
    }

    /// A copy of the value.
    pub fn duplicate(&self) -> (r: Scalar)
        ensures
            r@ == self@,
    {
        match self {
            Scalar::Bool(v) => Scalar::Bool(*v),
            Scalar::I8(v) => Scalar::I8(*v),
            Scalar::I16(v) => Scalar::I16(*v),
            Scalar::I32(v) => Scalar::I32(*v),
            Scalar::I64(v) => Scalar::I64(*v),
            Scalar::U8(v) => Scalar::U8(*v),
            Scalar::U16(v) => Scalar::U16(*v),
            Scalar::U32(v) => Scalar::U32(*v),
            Scalar::U64(v) => Scalar::U64(*v),
            Scalar::F32(v) => Scalar::F32(*v),
            Scalar::F64(v) => Scalar::F64(*v),
            Scalar::Text(v) => Scalar::Text(v.clone()),
            Scalar::Unit => Scalar::Unit,
        }
    }

    /// Whether two scalars have the same type and the same value.
    pub fn same(&self, other: &Scalar) -> (b: bool)
        ensures
            b == (self@ == other@),
    {
        match (self, other) {
            (Scalar::Bool(a), Scalar::Bool(b)) => *a == *b,
            (Scalar::I8(a), Scalar::I8(b)) => *a == *b,
            (Scalar::I16(a), Scalar::I16(b)) => *a == *b,
            (Scalar::I32(a), Scalar::I32(b)) => *a == *b,
            (Scalar::I64(a), Scalar::I64(b)) => *a == *b,
            (Scalar::U8(a), Scalar::U8(b)) => *a == *b,
            (Scalar::U16(a), Scalar::U16(b)) => *a == *b,
            (Scalar::U32(a), Scalar::U32(b)) => *a == *b,
            (Scalar::U64(a), Scalar::U64(b)) => *a == *b,
            (Scalar::F32(a), Scalar::F32(b)) => *a == *b,
            (Scalar::F64(a), Scalar::F64(b)) => *a == *b,
            (Scalar::Text(a), Scalar::Text(b)) => *a == *b,
            (Scalar::Unit, Scalar::Unit) => true,
            _ => false,
        }
    }
}

/// An erased value as a mathematical value: one scalar, or a vector of
/// scalars together with the primitive type of its elements.
pub enum ObjectView {
    One(ScalarView),
    Many(Atom, Seq<ScalarView>),
}

impl ObjectView {
    /// The type that the value was erased from.
    pub open spec fn type_of(self) -> Type {
        match self {
            ObjectView::One(s) => Type::Of(Family::Plain, s.atom()),
            ObjectView::Many(a, _) => Type::Of(Family::Vector, a),
        }
    }

    /// Every element of a vector has the primitive type of the vector.
    pub open spec fn wf(self) -> bool {
        match self {
            ObjectView::One(_) => true,
            ObjectView::Many(a, s) => forall|i: int| 0 <= i < s.len() ==> (#[trigger] s[i]).atom() == a,
        }
    }
}

/// The views of the scalars in `s`.
pub open spec fn views(s: Seq<Scalar>) -> Seq<ScalarView> {
    Seq::new(s.len(), |i: int| s[i]@)
}

enum AnyValue {
    One(Scalar),
    Many(Atom, Vec<Scalar>),
}

/// A value together with the type it was erased from.
pub struct AnyObject {
    value: AnyValue,
}

impl View for AnyObject {
    type V = ObjectView;

    closed spec fn view(&self) -> ObjectView {
        match self.value {
            AnyValue::One(s) => ObjectView::One(s@),
            AnyValue::Many(a, v) => ObjectView::Many(a, views(v@)),
        }
    }
}

impl AnyObject {
    #[verifier::type_invariant]
    closed spec fn wf(&self) -> bool {
        self@.wf()
    }

    /// The object that holds the number `s`.
    pub closed spec fn number(s: ScalarView) -> AnyObject {
        AnyObject {
            value: AnyValue::One(
                match s {
                    ScalarView::I8(v) => Scalar::I8(v),
                    ScalarView::I16(v) => Scalar::I16(v),
                    ScalarView::I32(v) => Scalar::I32(v),
                    ScalarView::I64(v) => Scalar::I64(v),
                    ScalarView::U8(v) => Scalar::U8(v),
                    ScalarView::U16(v) => Scalar::U16(v),
                    ScalarView::U32(v) => Scalar::U32(v),
                    ScalarView::U64(v) => Scalar::U64(v),
                    ScalarView::F32(v) => Scalar::F32(v),
                    ScalarView::F64(v) => Scalar::F64(v),
                    ScalarView::Bool(v) => Scalar::Bool(v),
                    _ => Scalar::Unit,
                },
            ),
        }
    }

    /// An object that holds a number is determined by the number.
    pub proof fn lemma_number(o: AnyObject, s: ScalarView)
        requires
            o@ == ObjectView::One(s),
            s.atom().spec_is_number(),
        ensures
            o == Self::number(s),
            Self::number(s)@ == ObjectView::One(s),
    {
    }

    /// Erases one scalar.
    pub fn from_scalar(s: Scalar) -> (r: AnyObject)
        ensures
            r@ == ObjectView::One(s@),
    {
        AnyObject { value: AnyValue::One(s) }
    }

    /// Erases a vector of scalars; fails with `FailedCast` exactly when some
    /// element is not of the type `atom`.
    pub fn from_scalars(atom: Atom, elements: Vec<Scalar>) -> (r: Fallible<AnyObject>)
        ensures
            match r {
                Ok(o) => o@ == ObjectView::Many(atom, views(elements@)) && o@.wf(),
                Err(e) => e.variant == ErrorVariant::FailedCast && !ObjectView::Many(atom, views(elements@)).wf(),
            },
    {
        let mut i: usize = 0;
        while i < elements.len()
            invariant
                i <= elements.len(),
                forall|j: int| 0 <= j < i ==> (#[trigger] views(elements@)[j]).atom() == atom,
            decreases elements.len() - i,
        {
            if elements[i].atom() != atom {
                assert(views(elements@)[i as int].atom() != atom);
                return Err(Error::with_message(ErrorVariant::FailedCast, "an element is not of the vector's type"));
            }
            i = i + 1;
        }
        Ok(AnyObject { value: AnyValue::Many(atom, elements) })
    }

    /// Erases a 64-bit float, given by its bit pattern.
    pub fn from_f64_bits(bits: u64) -> (r: AnyObject)
        ensures
            r@ == ObjectView::One(ScalarView::F64(bits)),
    {
        AnyObject { value: AnyValue::One(Scalar::F64(bits)) }
    }

    /// Erases a 32-bit float, given by its bit pattern.
    pub fn from_f32_bits(bits: u32) -> (r: AnyObject)
        ensures
            r@ == ObjectView::One(ScalarView::F32(bits)),
    {
        AnyObject { value: AnyValue::One(Scalar::F32(bits)) }
    }

    /// The type that the value was erased from.
    pub fn type_of(&self) -> (r: Type)
        ensures
            r == self@.type_of(),
    {
        match &self.value {
            AnyValue::One(s) => Type::Of(Family::Plain, s.atom()),
            AnyValue::Many(a, _) => Type::Of(Family::Vector, *a),
        }
    }

    /// The scalar that the object holds, if it holds one.
    pub fn as_scalar(&self) -> (r: Option<&Scalar>)
        ensures
            match r {
                Some(s) => self@ == ObjectView::One(s@),
                None => self@ is Many,
            },
    {
        match &self.value {
            AnyValue::One(s) => Some(s),
            AnyValue::Many(_, _) => None,
        }
    }

    /// The elements that the object holds, if it holds a vector.
    pub fn as_scalars(&self) -> (r: Option<&Vec<Scalar>>)
        ensures
            match r {
                Some(v) => self@ matches ObjectView::Many(a, s) && s == views(v@) && self@.wf(),
                None => self@ is One,
            },
    {
        proof {
            use_type_invariant(self);
        }
        match &self.value {
            AnyValue::One(_) => None,
            AnyValue::Many(_, v) => Some(v),
        }
    }

    /// A copy of the value.
    pub fn duplicate(&self) -> (r: AnyObject)
        ensures
            r@ == self@,
    {
        proof {
            use_type_invariant(self);
        }
        match &self.value {
            AnyValue::One(s) => AnyObject { value: AnyValue::One(s.duplicate()) },
            AnyValue::Many(a, v) => {
                let mut copy: Vec<Scalar> = Vec::new();
                let mut i: usize = 0;
                while i < v.len()
                    invariant
                        i <= v.len(),
                        copy.len() == i,
                        forall|j: int| 0 <= j < i ==> (#[trigger] copy@[j])@ == v@[j]@,
                    decreases v.len() - i,
                {
                    copy.push(v[i].duplicate());
                    i = i + 1;
                }
                assert(views(copy@) =~= views(v@));
                AnyObject { value: AnyValue::Many(*a, copy) }
            },
        }
    }
}

impl Clone for AnyObject {
    fn clone(&self) -> (r: Self)
        ensures
            r@ == self@,
    {
        self.duplicate()
    }
}

/// The primitive types that the boundary can erase and recover.
pub trait ErasableAtom: Sized {
    /// The primitive type that `Self` is.
    spec fn atom() -> Atom;

    /// The value as an erased scalar.
    spec fn scalar(self) -> ScalarView;

    /// A value erases to a scalar of its own primitive type, which is a type of records.
    proof fn lemma_scalar(a: Self)
        ensures
            a.scalar().atom() == Self::atom(),
            Self::atom().spec_is_primitive(),
    ;

    fn atom_value() -> (r: Atom)
        ensures
            r == Self::atom(),
    ;

    fn to_scalar(&self) -> (r: Scalar)
        ensures
            r@ == self.scalar(),
    ;

    /// Recovers a value from a scalar of the primitive type of `Self`.
    fn from_scalar(s: &Scalar) -> (r: Option<Self>)
        ensures
            match r {
                Some(v) => v.scalar() == s@,
                None => s@.atom() != Self::atom(),
            },
    ;
}

impl ErasableAtom for bool {
    open spec fn atom() -> Atom {
        Atom::Bool
    }

    open spec fn scalar(self) -> ScalarView {
        ScalarView::Bool(self)
    }

    proof fn lemma_scalar(a: Self) {
    }

    fn atom_value() -> (r: Atom) {
        Atom::Bool
    }

    fn to_scalar(&self) -> (r: Scalar) {
        Scalar::Bool(*self)
    }

    fn from_scalar(s: &Scalar) -> (r: Option<Self>) {
        match s {
            Scalar::Bool(v) => Some(*v),
            _ => None,
        }
    }
}

impl ErasableAtom for i8 {
    open spec fn atom() -> Atom {
        Atom::I8
    }

    open spec fn scalar(self) -> ScalarView {
        ScalarView::I8(self)
    }

    proof fn lemma_scalar(a: Self) {
    }

    fn atom_value() -> (r: Atom) {
        Atom::I8
    }

    fn to_scalar(&self) -> (r: Scalar) {
        Scalar::I8(*self)
    }

    fn from_scalar(s: &Scalar) -> (r: Option<Self>) {
        match s {
            Scalar::I8(v) => Some(*v),
            _ => None,
        }
    }
}

impl ErasableAtom for i16 {
    open spec fn atom() -> Atom {
        Atom::I16
    }

    open spec fn scalar(self) -> ScalarView {
        ScalarView::I16(self)
    }

    proof fn lemma_scalar(a: Self) {
    }

    fn atom_value() -> (r: Atom) {
        Atom::I16
    }

    fn to_scalar(&self) -> (r: Scalar) {
        Scalar::I16(*self)
    }

    fn from_scalar(s: &Scalar) -> (r: Option<Self>) {
        match s {
            Scalar::I16(v) => Some(*v),
            _ => None,
        }
    }
}

impl ErasableAtom for i32 {
    open spec fn atom() -> Atom {
        Atom::I32
    }

    open spec fn scalar(self) -> ScalarView {
        ScalarView::I32(self)
    }

    proof fn lemma_scalar(a: Self) {
    }

    fn atom_value() -> (r: Atom) {
        Atom::I32
    }

    fn to_scalar(&self) -> (r: Scalar) {
        Scalar::I32(*self)
    }

    fn from_scalar(s: &Scalar) -> (r: Option<Self>) {
        match s {
            Scalar::I32(v) => Some(*v),
            _ => None,
        }
    }
}

impl ErasableAtom for i64 {
    open spec fn atom() -> Atom {
        Atom::I64
    }

    open spec fn scalar(self) -> ScalarView {
        ScalarView::I64(self)
    }

    proof fn lemma_scalar(a: Self) {
    }

    fn atom_value() -> (r: Atom) {
        Atom::I64
    }

    fn to_scalar(&self) -> (r: Scalar) {
        Scalar::I64(*self)
    }

    fn from_scalar(s: &Scalar) -> (r: Option<Self>) {
        match s {
            Scalar::I64(v) => Some(*v),
            _ => None,
        }
    }
}

impl ErasableAtom for u8 {
    open spec fn atom() -> Atom {
        Atom::U8
    }

    open spec fn scalar(self) -> ScalarView {
        ScalarView::U8(self)
    }

    proof fn lemma_scalar(a: Self) {
    }

    fn atom_value() -> (r: Atom) {
        Atom::U8
    }

    fn to_scalar(&self) -> (r: Scalar) {
        Scalar::U8(*self)
    }

    fn from_scalar(s: &Scalar) -> (r: Option<Self>) {
        match s {
            Scalar::U8(v) => Some(*v),
            _ => None,
        }
    }
}

impl ErasableAtom for u16 {
    open spec fn atom() -> Atom {
        Atom::U16
    }

    open spec fn scalar(self) -> ScalarView {
        ScalarView::U16(self)
    }

    proof fn lemma_scalar(a: Self) {
    }

    fn atom_value() -> (r: Atom) {
        Atom::U16
    }

    fn to_scalar(&self) -> (r: Scalar) {
        Scalar::U16(*self)
    }

    fn from_scalar(s: &Scalar) -> (r: Option<Self>) {
        match s {
            Scalar::U16(v) => Some(*v),
            _ => None,
        }
    }
}

impl ErasableAtom for u32 {
    open spec fn atom() -> Atom {
        Atom::U32
    }

    open spec fn scalar(self) -> ScalarView {
        ScalarView::U32(self)
    }

    proof fn lemma_scalar(a: Self) {
    }

    fn atom_value() -> (r: Atom) {
        Atom::U32
    }

    fn to_scalar(&self) -> (r: Scalar) {
        Scalar::U32(*self)
    }

    fn from_scalar(s: &Scalar) -> (r: Option<Self>) {
        match s {
            Scalar::U32(v) => Some(*v),
            _ => None,
        }
    }
}

impl ErasableAtom for u64 {
    open spec fn atom() -> Atom {
        Atom::U64
    }

    open spec fn scalar(self) -> ScalarView {
        ScalarView::U64(self)
    }

    proof fn lemma_scalar(a: Self) {
    }

    fn atom_value() -> (r: Atom) {
        Atom::U64
    }

    fn to_scalar(&self) -> (r: Scalar) {
        Scalar::U64(*self)
    }

    fn from_scalar(s: &Scalar) -> (r: Option<Self>) {
        match s {
            Scalar::U64(v) => Some(*v),
            _ => None,
        }
    }
}

impl ErasableAtom for String {
    open spec fn atom() -> Atom {
        Atom::Text
    }

    open spec fn scalar(self) -> ScalarView {
        ScalarView::Text(self@)
    }

    proof fn lemma_scalar(a: Self) {
    }

    fn atom_value() -> (r: Atom) {
        Atom::Text
    }

    fn to_scalar(&self) -> (r: Scalar) {
        Scalar::Text(self.clone())
    }

    fn from_scalar(s: &Scalar) -> (r: Option<Self>) {
        match s {
            Scalar::Text(v) => Some(v.clone()),
            _ => None,
        }
    }
}

/// The types of data and of distances that the boundary can erase and recover.
pub trait Erasable: Sized {
    /// The type under which values of `Self` cross the boundary.
    spec fn carrier() -> Type;

    /// The value in erased form.
    spec fn erased(self) -> ObjectView;

    /// A value erases to a well-formed object of the carrier type.
    proof fn lemma_erased(a: Self)
        ensures
            a.erased().type_of() == Self::carrier(),
            a.erased().wf(),
    ;

    fn erase(&self) -> (r: AnyObject)
        ensures
            r@ == self.erased(),
    ;

    /// Recovers a value. Fails with `FailedCast` exactly when the object is
    /// not of the carrier type.
    fn downcast(obj: &AnyObject) -> (r: Fallible<Self>)
        ensures
            match r {
                Ok(v) => v.erased() == obj@,
                Err(e) => e.variant == ErrorVariant::FailedCast && obj@.type_of() != Self::carrier(),
            },
    ;
}

impl Erasable for bool {
    open spec fn carrier() -> Type {
        Type::Of(Family::Plain, <bool as ErasableAtom>::atom())
    }

    open spec fn erased(self) -> ObjectView {
        ObjectView::One(self.scalar())
    }

    proof fn lemma_erased(a: Self) {
    }

    fn erase(&self) -> (r: AnyObject) {
        AnyObject::from_scalar(self.to_scalar())
    }

    fn downcast(obj: &AnyObject) -> (r: Fallible<Self>) {
        match obj.as_scalar() {
            Some(s) => match <bool as ErasableAtom>::from_scalar(s) {
                Some(v) => Ok(v),
                None => Err(Error::with_message(ErrorVariant::FailedCast, "the object is not of the expected type")),
            },
            None => Err(Error::with_message(ErrorVariant::FailedCast, "the object is not of the expected type")),
        }
    }
}

impl Erasable for i8 {
    open spec fn carrier() -> Type {
        Type::Of(Family::Plain, <i8 as ErasableAtom>::atom())
    }

    open spec fn erased(self) -> ObjectView {
        ObjectView::One(self.scalar())
    }

    proof fn lemma_erased(a: Self) {
    }

    fn erase(&self) -> (r: AnyObject) {
        AnyObject::from_scalar(self.to_scalar())
    }

    fn downcast(obj: &AnyObject) -> (r: Fallible<Self>) {
        match obj.as_scalar() {
            Some(s) => match <i8 as ErasableAtom>::from_scalar(s) {
                Some(v) => Ok(v),
                None => Err(Error::with_message(ErrorVariant::FailedCast, "the object is not of the expected type")),
            },
            None => Err(Error::with_message(ErrorVariant::FailedCast, "the object is not of the expected type")),
        }
    }
}

impl Erasable for i16 {
    open spec fn carrier() -> Type {
        Type::Of(Family::Plain, <i16 as ErasableAtom>::atom())
    }

    open spec fn erased(self) -> ObjectView {
        ObjectView::One(self.scalar())
    }

    proof fn lemma_erased(a: Self) {
    }

    fn erase(&self) -> (r: AnyObject) {
        AnyObject::from_scalar(self.to_scalar())
    }

    fn downcast(obj: &AnyObject) -> (r: Fallible<Self>) {
        match obj.as_scalar() {
            Some(s) => match <i16 as ErasableAtom>::from_scalar(s) {
                Some(v) => Ok(v),
                None => Err(Error::with_message(ErrorVariant::FailedCast, "the object is not of the expected type")),
            },
            None => Err(Error::with_message(ErrorVariant::FailedCast, "the object is not of the expected type")),
        }
    }
}

impl Erasable for i32 {
    open spec fn carrier() -> Type {
        Type::Of(Family::Plain, <i32 as ErasableAtom>::atom())
    }

    open spec fn erased(self) -> ObjectView {
        ObjectView::One(self.scalar())
    }

    proof fn lemma_erased(a: Self) {
    }

    fn erase(&self) -> (r: AnyObject) {
        AnyObject::from_scalar(self.to_scalar())
    }

    fn downcast(obj: &AnyObject) -> (r: Fallible<Self>) {
        match obj.as_scalar() {
            Some(s) => match <i32 as ErasableAtom>::from_scalar(s) {
                Some(v) => Ok(v),
                None => Err(Error::with_message(ErrorVariant::FailedCast, "the object is not of the expected type")),
            },
            None => Err(Error::with_message(ErrorVariant::FailedCast, "the object is not of the expected type")),
        }
    }
}

impl Erasable for i64 {
    open spec fn carrier() -> Type {
        Type::Of(Family::Plain, <i64 as ErasableAtom>::atom())
    }

    open spec fn erased(self) -> ObjectView {
        ObjectView::One(self.scalar())
    }

    proof fn lemma_erased(a: Self) {
    }

    fn erase(&self) -> (r: AnyObject) {
        AnyObject::from_scalar(self.to_scalar())
    }

    fn downcast(obj: &AnyObject) -> (r: Fallible<Self>) {
        match obj.as_scalar() {
            Some(s) => match <i64 as ErasableAtom>::from_scalar(s) {
                Some(v) => Ok(v),
                None => Err(Error::with_message(ErrorVariant::FailedCast, "the object is not of the expected type")),
            },
            None => Err(Error::with_message(ErrorVariant::FailedCast, "the object is not of the expected type")),
        }
    }
}

impl Erasable for u8 {
    open spec fn carrier() -> Type {
        Type::Of(Family::Plain, <u8 as ErasableAtom>::atom())
    }

    open spec fn erased(self) -> ObjectView {
        ObjectView::One(self.scalar())
    }

    proof fn lemma_erased(a: Self) {
    }

    fn erase(&self) -> (r: AnyObject) {
        AnyObject::from_scalar(self.to_scalar())
    }

    fn downcast(obj: &AnyObject) -> (r: Fallible<Self>) {
        match obj.as_scalar() {
            Some(s) => match <u8 as ErasableAtom>::from_scalar(s) {
                Some(v) => Ok(v),
                None => Err(Error::with_message(ErrorVariant::FailedCast, "the object is not of the expected type")),
            },
            None => Err(Error::with_message(ErrorVariant::FailedCast, "the object is not of the expected type")),
        }
    }
}

impl Erasable for u16 {
    open spec fn carrier() -> Type {
        Type::Of(Family::Plain, <u16 as ErasableAtom>::atom())
    }

    open spec fn erased(self) -> ObjectView {
        ObjectView::One(self.scalar())
    }

    proof fn lemma_erased(a: Self) {
    }

    fn erase(&self) -> (r: AnyObject) {
        AnyObject::from_scalar(self.to_scalar())
    }

    fn downcast(obj: &AnyObject) -> (r: Fallible<Self>) {
        match obj.as_scalar() {
            Some(s) => match <u16 as ErasableAtom>::from_scalar(s) {
                Some(v) => Ok(v),
                None => Err(Error::with_message(ErrorVariant::FailedCast, "the object is not of the expected type")),
            },
            None => Err(Error::with_message(ErrorVariant::FailedCast, "the object is not of the expected type")),
        }
    }
}

impl Erasable for u32 {
    open spec fn carrier() -> Type {
        Type::Of(Family::Plain, <u32 as ErasableAtom>::atom())
    }

    open spec fn erased(self) -> ObjectView {
        ObjectView::One(self.scalar())
    }

    proof fn lemma_erased(a: Self) {
    }

    fn erase(&self) -> (r: AnyObject) {
        AnyObject::from_scalar(self.to_scalar())
    }

    fn downcast(obj: &AnyObject) -> (r: Fallible<Self>) {
        match obj.as_scalar() {
            Some(s) => match <u32 as ErasableAtom>::from_scalar(s) {
                Some(v) => Ok(v),
                None => Err(Error::with_message(ErrorVariant::FailedCast, "the object is not of the expected type")),
            },
            None => Err(Error::with_message(ErrorVariant::FailedCast, "the object is not of the expected type")),
        }
    }
}

impl Erasable for u64 {
    open spec fn carrier() -> Type {
        Type::Of(Family::Plain, <u64 as ErasableAtom>::atom())
    }

    open spec fn erased(self) -> ObjectView {
        ObjectView::One(self.scalar())
    }

    proof fn lemma_erased(a: Self) {
    }

    fn erase(&self) -> (r: AnyObject) {
        AnyObject::from_scalar(self.to_scalar())
    }

    fn downcast(obj: &AnyObject) -> (r: Fallible<Self>) {
        match obj.as_scalar() {
            Some(s) => match <u64 as ErasableAtom>::from_scalar(s) {
                Some(v) => Ok(v),
                None => Err(Error::with_message(ErrorVariant::FailedCast, "the object is not of the expected type")),
            },
            None => Err(Error::with_message(ErrorVariant::FailedCast, "the object is not of the expected type")),
        }
    }
}

impl Erasable for String {
    open spec fn carrier() -> Type {
        Type::Of(Family::Plain, Atom::Text)
    }

    open spec fn erased(self) -> ObjectView {
        ObjectView::One(self.scalar())
    }

    proof fn lemma_erased(a: Self) {
    }

    fn erase(&self) -> (r: AnyObject) {
        AnyObject::from_scalar(self.to_scalar())
    }

    fn downcast(obj: &AnyObject) -> (r: Fallible<Self>) {
        match obj.as_scalar() {
            Some(s) => match <String as ErasableAtom>::from_scalar(s) {
                Some(v) => Ok(v),
                None => Err(Error::with_message(ErrorVariant::FailedCast, "the object is not of the expected type")),
            },
            None => Err(Error::with_message(ErrorVariant::FailedCast, "the object is not of the expected type")),
        }
    }
}

/// The integer types that the boundary can erase: their erased form is the
/// scalar of the integer that they stand for.
pub trait ErasableNumber: Number + ErasableAtom + Erasable {
    proof fn lemma_erasable_number(x: Self)
        ensures
            Self::atom().spec_is_integer(),
            x.scalar().integer() == Some(x.value()),
            x.erased() == ObjectView::One(x.scalar()),
            Self::carrier() == Type::Of(Family::Plain, Self::atom()),
    ;

    /// A scalar of the type of `Self` is the erased form of the number that it stands for.
    proof fn lemma_recover(s: ScalarView)
        requires
            s.atom() == Self::atom(),
        ensures
            s.integer() matches Some(v) && Self::lowest() <= v <= Self::highest() && Self::from_value(v).scalar()
                == s,
    ;
}

impl ErasableNumber for i8 {
    proof fn lemma_erasable_number(x: Self) {
    }

    proof fn lemma_recover(s: ScalarView) {
    }
}

impl ErasableNumber for i16 {
    proof fn lemma_erasable_number(x: Self) {
    }

    proof fn lemma_recover(s: ScalarView) {
    }
}

impl ErasableNumber for i32 {
    proof fn lemma_erasable_number(x: Self) {
    }

    proof fn lemma_recover(s: ScalarView) {
    }
}

impl ErasableNumber for i64 {
    proof fn lemma_erasable_number(x: Self) {
    }

    proof fn lemma_recover(s: ScalarView) {
    }
}

impl ErasableNumber for u8 {
    proof fn lemma_erasable_number(x: Self) {
    }

    proof fn lemma_recover(s: ScalarView) {
    }
}

impl ErasableNumber for u16 {
    proof fn lemma_erasable_number(x: Self) {
    }

    proof fn lemma_recover(s: ScalarView) {
    }
}

impl ErasableNumber for u32 {
    proof fn lemma_erasable_number(x: Self) {
    }

    proof fn lemma_recover(s: ScalarView) {
    }
}

impl ErasableNumber for u64 {
    proof fn lemma_erasable_number(x: Self) {
    }

    proof fn lemma_recover(s: ScalarView) {
    }
}

/// The scalars that the elements of `s` erase to.
pub open spec fn scalars<T: ErasableAtom>(s: Seq<T>) -> Seq<ScalarView> {
    Seq::new(s.len(), |i: int| s[i].scalar())
}

impl<T: ErasableAtom> Erasable for Vec<T> {
    open spec fn carrier() -> Type {
        Type::Of(Family::Vector, T::atom())
    }

    open spec fn erased(self) -> ObjectView {
        ObjectView::Many(T::atom(), scalars(self@))
    }

    proof fn lemma_erased(a: Self) {
        assert forall|i: int| 0 <= i < a@.len() implies (#[trigger] scalars(a@)[i]).atom() == T::atom() by {
            T::lemma_scalar(a@[i]);
        }
    }

    fn erase(&self) -> (r: AnyObject) {
        let mut elements: Vec<Scalar> = Vec::new();
        let mut i: usize = 0;
        while i < self.len()
            invariant
                i <= self.len(),
                elements.len() == i,
                forall|j: int| 0 <= j < i ==> (#[trigger] elements@[j])@ == self@[j].scalar(),
            decreases self.len() - i,
        {
            elements.push(self[i].to_scalar());
            i = i + 1;
        }
        proof {
            assert(views(elements@) =~= scalars(self@));
            assert forall|j: int| 0 <= j < elements.len() implies (#[trigger] views(elements@)[j]).atom()
                == T::atom() by {
                T::lemma_scalar(self@[j]);
            }
        }
        match AnyObject::from_scalars(T::atom_value(), elements) {
            Ok(o) => o,
            Err(_) => unreached(),
        }
    }

    fn downcast(obj: &AnyObject) -> (r: Fallible<Self>) {
        let atom = T::atom_value();
        if obj.type_of() != Type::Of(Family::Vector, atom) {
            return Err(Error::with_message(ErrorVariant::FailedCast, "the object is not of the expected type"));
        }
        match obj.as_scalars() {
            Some(v) => {
                let mut out: Vec<T> = Vec::new();
                let mut i: usize = 0;
                while i < v.len()
                    invariant
                        i <= v.len(),
                        out.len() == i,
                        atom == T::atom(),
                        obj@ == ObjectView::Many(atom, views(v@)),
                        obj@.wf(),
                        forall|j: int| 0 <= j < i ==> (#[trigger] out@[j]).scalar() == v@[j]@,
                    decreases v.len() - i,
                {
                    match T::from_scalar(&v[i]) {
                        Some(x) => {
                            out.push(x);
                        },
                        None => {
                            assert(views(v@)[i as int].atom() == atom);
                            return Err(
                                Error::with_message(ErrorVariant::FailedCast, "the object is not of the expected type"),
                            );
                        },
                    }
                    i = i + 1;
                }
                assert(scalars(out@) =~= views(v@));
                Ok(out)
            },
            None => Err(Error::with_message(ErrorVariant::FailedCast, "the object is not of the expected type")),
        }
    }
}

} // verus!
