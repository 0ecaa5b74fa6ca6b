//! Type descriptors: the text by which a caller names a carrier type, a
//! distance type, a domain, a metric or a measure, and the closed registry of
//! the shapes that the boundary supports.
use crate::error::{fails_with, Error, ErrorVariant, Fallible};
use vstd::prelude::*;
use vstd::string::StringExecFns;

verus! {

/// The primitive types that data and distances are made of. The two
/// floating-point types cross the boundary as their bit patterns.
#[derive(Clone, Copy, Debug, PartialEq, Eq, Structural)]
pub enum Atom {
    Bool,
    I8,
    I16,
    I32,
    I64,
    U8,
    U16,
    U32,
    U64,
    F32,
    F64,
    Text,
    Unit,
}

/// The generic shapes of the registry: each wraps one atom.
#[derive(Clone, Copy, Debug, PartialEq, Eq, Structural)]
pub enum Family {
    Plain,
    Vector,
    Optional,
    Pair,
    AllDomain,
    BoundedDomain,
    VectorOfAll,
    VectorOfBounded,
    SizedVectorOfAll,
    SizedVectorOfBounded,
    OptionNullDomain,
    InherentNullDomain,
    AbsoluteDistance,
    L1Distance,
    L2Distance,
    MaxDivergence,
    FixedSmoothedMaxDivergence,
    ZeroConcentratedDivergence,
}

/// The shapes of the registry that take no atom: the metrics on datasets.
#[derive(Clone, Copy, Debug, PartialEq, Eq, Structural)]
pub enum Nullary {
    SymmetricDistance,
    InsertDeleteDistance,
    ChangeOneDistance,
    HammingDistance,
    DiscreteDistance,
    AgnosticMetric,
}

/// A type that the boundary can name.
#[derive(Clone, Copy, Debug, PartialEq, Eq, Structural)]
pub enum Type {
    Of(Family, Atom),
    Named(Nullary),
}

impl Atom {
    /// The name under which the shape stands in a descriptor.
    pub open spec fn spec_name(self) -> Seq<char> {
        match self {
            Atom::Bool => "bool"@,
            Atom::I8 => "i8"@,
            Atom::I16 => "i16"@,
            Atom::I32 => "i32"@,
            Atom::I64 => "i64"@,
            Atom::U8 => "u8"@,
            Atom::U16 => "u16"@,
            Atom::U32 => "u32"@,
            Atom::U64 => "u64"@,
            Atom::F32 => "f32"@,
            Atom::F64 => "f64"@,
            Atom::Text => "String"@,
            Atom::Unit => "()"@,
        }
    }

    /// The name under which the shape stands in a descriptor.
    pub fn name(&self) -> (r: &'static str)
        ensures
            r@ == self.spec_name(),
    {
        match self {
            Atom::Bool => "bool",
            Atom::I8 => "i8",
            Atom::I16 => "i16",
            Atom::I32 => "i32",
            Atom::I64 => "i64",
            Atom::U8 => "u8",
            Atom::U16 => "u16",
            Atom::U32 => "u32",
            Atom::U64 => "u64",
            Atom::F32 => "f32",
            Atom::F64 => "f64",
            Atom::Text => "String",
            Atom::Unit => "()",
        }
    }

    /// Whether the atom is one of the floating-point types.
    pub open spec fn spec_is_float(self) -> bool {
        self == Atom::F32 || self == Atom::F64
    }

    /// Decides whether the atom is a float.
    #[verifier::when_used_as_spec(spec_is_float)]
    pub fn is_float(self) -> (b: bool)
        ensures
            b == self.spec_is_float(),
    {
        match self {
            Atom::F32 | Atom::F64 => true,
            _ => false,
        }
    }

    /// Whether the atom is one of the integer types.
    pub open spec fn spec_is_integer(self) -> bool {
        self == Atom::I8 || self == Atom::I16 || self == Atom::I32 || self == Atom::I64 || self == Atom::U8
            || self == Atom::U16 || self == Atom::U32 || self == Atom::U64
    }

    /// Decides whether the atom is an integer.
    #[verifier::when_used_as_spec(spec_is_integer)]
    pub fn is_integer(self) -> (b: bool)
        ensures
            b == self.spec_is_integer(),
    {
        match self {
            Atom::I8 | Atom::I16 | Atom::I32 | Atom::I64 | Atom::U8 | Atom::U16 | Atom::U32 | Atom::U64 => true,
            _ => false,
        }
    }

    /// Whether the atom is a number: an integer or a float.
    pub open spec fn spec_is_number(self) -> bool {
        self.spec_is_integer() || self.spec_is_float()
    }

    /// Decides whether the atom is a number.
    #[verifier::when_used_as_spec(spec_is_number)]
    pub fn is_number(self) -> (b: bool)
        ensures
            b == self.spec_is_number(),
    {
        self.is_integer() || self.is_float()
    }

    /// Whether the atom can be the type of a record: anything but the unit type.
    pub open spec fn spec_is_primitive(self) -> bool {
        self != Atom::Unit
    }

    /// Decides whether the atom can be the type of a record.
    #[verifier::when_used_as_spec(spec_is_primitive)]
    pub fn is_primitive(self) -> (b: bool)
        ensures
            b == self.spec_is_primitive(),
    {
        match self {
            Atom::Unit => false,
            _ => true,
        }
    }

    /// The atoms in the order of the registry.
    pub open spec fn spec_all() -> Seq<Atom> {
        seq![
            Atom::Bool,
            Atom::I8,
            Atom::I16,
            Atom::I32,
            Atom::I64,
            Atom::U8,
            Atom::U16,
            Atom::U32,
            Atom::U64,
            Atom::F32,
            Atom::F64,
            Atom::Text,
            Atom::Unit,
        ]
    }

    /// Lists the atoms in the order of the registry.
    pub fn all() -> (r: Vec<Atom>)
        ensures
            r@ == Self::spec_all(),
            forall|a: Atom| r@.contains(a),
    {
        let r = vec![
            Atom::Bool,
            Atom::I8,
            Atom::I16,
            Atom::I32,
            Atom::I64,
            Atom::U8,
            Atom::U16,
            Atom::U32,
            Atom::U64,
            Atom::F32,
            Atom::F64,
            Atom::Text,
            Atom::Unit,
        ];
        assert(r@ =~= Self::spec_all());
        assert forall|a: Atom| r@.contains(a) by {
            let i: int = match a {
                Atom::Bool => 0,
                Atom::I8 => 1,
                Atom::I16 => 2,
                Atom::I32 => 3,
                Atom::I64 => 4,
                Atom::U8 => 5,
                Atom::U16 => 6,
                Atom::U32 => 7,
                Atom::U64 => 8,
                Atom::F32 => 9,
                Atom::F64 => 10,
                Atom::Text => 11,
                Atom::Unit => 12,
            };
            assert(r@[i] == a);
        }
        r
    }
}

impl Family {
    /// The text before the atom in a descriptor of this family. A pair names its atom twice.
    pub open spec fn spec_opening(self) -> Seq<char> {
        match self {
            Family::Plain => ""@,
            Family::Vector => "Vec<"@,
            Family::Optional => "Option<"@,
            Family::Pair => "("@,
            Family::AllDomain => "AllDomain<"@,
            Family::BoundedDomain => "BoundedDomain<"@,
            Family::VectorOfAll => "VectorDomain<AllDomain<"@,
            Family::VectorOfBounded => "VectorDomain<BoundedDomain<"@,
            Family::SizedVectorOfAll => "SizedDomain<VectorDomain<AllDomain<"@,
            Family::SizedVectorOfBounded => "SizedDomain<VectorDomain<BoundedDomain<"@,
            Family::OptionNullDomain => "OptionNullDomain<AllDomain<"@,
            Family::InherentNullDomain => "InherentNullDomain<AllDomain<"@,
            Family::AbsoluteDistance => "AbsoluteDistance<"@,
            Family::L1Distance => "L1Distance<"@,
            Family::L2Distance => "L2Distance<"@,
            Family::MaxDivergence => "MaxDivergence<"@,
            Family::FixedSmoothedMaxDivergence => "FixedSmoothedMaxDivergence<"@,
            Family::ZeroConcentratedDivergence => "ZeroConcentratedDivergence<"@,
        }
    }

    /// The text after the atom in a descriptor of this family.
    pub open spec fn spec_closing(self) -> Seq<char> {
        match self {
            Family::Plain => ""@,
            Family::Vector => ">"@,
            Family::Optional => ">"@,
            Family::Pair => ")"@,
            Family::AllDomain => ">"@,
            Family::BoundedDomain => ">"@,
            Family::VectorOfAll => ">>"@,
            Family::VectorOfBounded => ">>"@,
            Family::SizedVectorOfAll => ">>>"@,
            Family::SizedVectorOfBounded => ">>>"@,
            Family::OptionNullDomain => ">>"@,
            Family::InherentNullDomain => ">>"@,
            Family::AbsoluteDistance => ">"@,
            Family::L1Distance => ">"@,
            Family::L2Distance => ">"@,
            Family::MaxDivergence => ">"@,
            Family::FixedSmoothedMaxDivergence => ">"@,
            Family::ZeroConcentratedDivergence => ">"@,
        }
    }

    /// The text before the atom in a descriptor of this family.
    pub fn opening(&self) -> (r: &'static str)
        ensures
            r@ == self.spec_opening(),
    {
        match self {
            Family::Plain => "",
            Family::Vector => "Vec<",
            Family::Optional => "Option<",
            Family::Pair => "(",
            Family::AllDomain => "AllDomain<",
            Family::BoundedDomain => "BoundedDomain<",
            Family::VectorOfAll => "VectorDomain<AllDomain<",
            Family::VectorOfBounded => "VectorDomain<BoundedDomain<",
            Family::SizedVectorOfAll => "SizedDomain<VectorDomain<AllDomain<",
            Family::SizedVectorOfBounded => "SizedDomain<VectorDomain<BoundedDomain<",
            Family::OptionNullDomain => "OptionNullDomain<AllDomain<",
            Family::InherentNullDomain => "InherentNullDomain<AllDomain<",
            Family::AbsoluteDistance => "AbsoluteDistance<",
            Family::L1Distance => "L1Distance<",
            Family::L2Distance => "L2Distance<",
            Family::MaxDivergence => "MaxDivergence<",
            Family::FixedSmoothedMaxDivergence => "FixedSmoothedMaxDivergence<",
            Family::ZeroConcentratedDivergence => "ZeroConcentratedDivergence<",
        }
    }

    /// The text after the atom in a descriptor of this family.
    pub fn closing(&self) -> (r: &'static str)
        ensures
            r@ == self.spec_closing(),
    {
        match self {
            Family::Plain => "",
            Family::Vector => ">",
            Family::Optional => ">",
            Family::Pair => ")",
            Family::AllDomain => ">",
            Family::BoundedDomain => ">",
            Family::VectorOfAll => ">>",
            Family::VectorOfBounded => ">>",
            Family::SizedVectorOfAll => ">>>",
            Family::SizedVectorOfBounded => ">>>",
            Family::OptionNullDomain => ">>",
            Family::InherentNullDomain => ">>",
            Family::AbsoluteDistance => ">",
            Family::L1Distance => ">",
            Family::L2Distance => ">",
            Family::MaxDivergence => ">",
            Family::FixedSmoothedMaxDivergence => ">",
            Family::ZeroConcentratedDivergence => ">",
        }
    }

    /// Whether the family is a family of domains.
    pub open spec fn spec_is_domain(self) -> bool {
        self == Family::AllDomain || self == Family::BoundedDomain || self == Family::VectorOfAll || self
            == Family::VectorOfBounded || self == Family::SizedVectorOfAll || self
            == Family::SizedVectorOfBounded || self == Family::OptionNullDomain || self
            == Family::InherentNullDomain
    }

    /// Decides whether the family is a family of domains.
    #[verifier::when_used_as_spec(spec_is_domain)]
    pub fn is_domain(self) -> (b: bool)
        ensures
            b == self.spec_is_domain(),
    {
        match self {
            Family::AllDomain
            | Family::BoundedDomain
            | Family::VectorOfAll
            | Family::VectorOfBounded
            | Family::SizedVectorOfAll
            | Family::SizedVectorOfBounded
            | Family::OptionNullDomain
            | Family::InherentNullDomain => true,
            _ => false,
        }
    }

    /// Whether the family is a family of metrics.
    pub open spec fn spec_is_metric(self) -> bool {
        self == Family::AbsoluteDistance || self == Family::L1Distance || self == Family::L2Distance
    }

    /// Decides whether the family is a family of metrics.
    #[verifier::when_used_as_spec(spec_is_metric)]
    pub fn is_metric(self) -> (b: bool)
        ensures
            b == self.spec_is_metric(),
    {
        match self {
            Family::AbsoluteDistance | Family::L1Distance | Family::L2Distance => true,
            _ => false,
        }
    }

    /// Whether the family is a family of measures.
    pub open spec fn spec_is_measure(self) -> bool {
        self == Family::MaxDivergence || self == Family::FixedSmoothedMaxDivergence || self
            == Family::ZeroConcentratedDivergence
    }

    /// Decides whether the family is a family of measures.
    #[verifier::when_used_as_spec(spec_is_measure)]
    pub fn is_measure(self) -> (b: bool)
        ensures
            b == self.spec_is_measure(),
    {
        match self {
            Family::MaxDivergence | Family::FixedSmoothedMaxDivergence | Family::ZeroConcentratedDivergence => true,
            _ => false,
        }
    }

    /// The families in the order of the registry.
    pub open spec fn spec_all() -> Seq<Family> {
        seq![
            Family::Plain,
            Family::Vector,
            Family::Optional,
            Family::Pair,
            Family::AllDomain,
            Family::BoundedDomain,
            Family::VectorOfAll,
            Family::VectorOfBounded,
            Family::SizedVectorOfAll,
            Family::SizedVectorOfBounded,
            Family::OptionNullDomain,
            Family::InherentNullDomain,
            Family::AbsoluteDistance,
            Family::L1Distance,
            Family::L2Distance,
            Family::MaxDivergence,
            Family::FixedSmoothedMaxDivergence,
            Family::ZeroConcentratedDivergence,
        ]
    }

    /// Lists the families in the order of the registry.
    pub fn all() -> (r: Vec<Family>)
        ensures
            r@ == Self::spec_all(),
            forall|f: Family| r@.contains(f),
    {
        let r = vec![
            Family::Plain,
            Family::Vector,
            Family::Optional,
            Family::Pair,
            Family::AllDomain,
            Family::BoundedDomain,
            Family::VectorOfAll,
            Family::VectorOfBounded,
            Family::SizedVectorOfAll,
            Family::SizedVectorOfBounded,
            Family::OptionNullDomain,
            Family::InherentNullDomain,
            Family::AbsoluteDistance,
            Family::L1Distance,
            Family::L2Distance,
            Family::MaxDivergence,
            Family::FixedSmoothedMaxDivergence,
            Family::ZeroConcentratedDivergence,
        ];
        assert(r@ =~= Self::spec_all());
        assert forall|f: Family| r@.contains(f) by {
            let i: int = match f {
                Family::Plain => 0,
                Family::Vector => 1,
                Family::Optional => 2,
                Family::Pair => 3,
                Family::AllDomain => 4,
                Family::BoundedDomain => 5,
                Family::VectorOfAll => 6,
                Family::VectorOfBounded => 7,
                Family::SizedVectorOfAll => 8,
                Family::SizedVectorOfBounded => 9,
                Family::OptionNullDomain => 10,
                Family::InherentNullDomain => 11,
                Family::AbsoluteDistance => 12,
                Family::L1Distance => 13,
                Family::L2Distance => 14,
                Family::MaxDivergence => 15,
                Family::FixedSmoothedMaxDivergence => 16,
                Family::ZeroConcentratedDivergence => 17,
            };
            assert(r@[i] == f);
        }
        r
    }
}

impl Nullary {
    /// The name under which the shape stands in a descriptor.
    pub open spec fn spec_name(self) -> Seq<char> {
        match self {
            Nullary::SymmetricDistance => "SymmetricDistance"@,
            Nullary::InsertDeleteDistance => "InsertDeleteDistance"@,
            Nullary::ChangeOneDistance => "ChangeOneDistance"@,
            Nullary::HammingDistance => "HammingDistance"@,
            Nullary::DiscreteDistance => "DiscreteDistance"@,
            Nullary::AgnosticMetric => "AgnosticMetric"@,
        }
    }

    /// The name under which the shape stands in a descriptor.
    pub fn name(&self) -> (r: &'static str)
        ensures
            r@ == self.spec_name(),
    {
        match self {
            Nullary::SymmetricDistance => "SymmetricDistance",
            Nullary::InsertDeleteDistance => "InsertDeleteDistance",
            Nullary::ChangeOneDistance => "ChangeOneDistance",
            Nullary::HammingDistance => "HammingDistance",
            Nullary::DiscreteDistance => "DiscreteDistance",
            Nullary::AgnosticMetric => "AgnosticMetric",
        }
    }

    /// The named shapes in the order of the registry.
    pub open spec fn spec_all() -> Seq<Nullary> {
        seq![
            Nullary::SymmetricDistance,
            Nullary::InsertDeleteDistance,
            Nullary::ChangeOneDistance,
            Nullary::HammingDistance,
            Nullary::DiscreteDistance,
            Nullary::AgnosticMetric,
        ]
    }

    /// Lists the named shapes in the order of the registry.
    pub fn all() -> (r: Vec<Nullary>)
        ensures
            r@ == Self::spec_all(),
            forall|p: Nullary| r@.contains(p),
    {
        let r = vec![
            Nullary::SymmetricDistance,
            Nullary::InsertDeleteDistance,
            Nullary::ChangeOneDistance,
            Nullary::HammingDistance,
            Nullary::DiscreteDistance,
            Nullary::AgnosticMetric,
        ];
        assert(r@ =~= Self::spec_all());
        assert forall|p: Nullary| r@.contains(p) by {
            let i: int = match p {
                Nullary::SymmetricDistance => 0,
                Nullary::InsertDeleteDistance => 1,
                Nullary::ChangeOneDistance => 2,
                Nullary::HammingDistance => 3,
                Nullary::DiscreteDistance => 4,
                Nullary::AgnosticMetric => 5,
            };
            assert(r@[i] == p);
        }
        r
    }
}

impl Type {
    /// The text that names the type at the boundary.
    pub open spec fn descriptor(self) -> Seq<char> {
        match self {
            Type::Of(Family::Pair, a) => "("@ + a.spec_name() + ", "@ + a.spec_name() + ")"@,
            Type::Of(f, a) => f.spec_opening() + a.spec_name() + f.spec_closing(),
            Type::Named(p) => p.spec_name(),
        }
    }

    /// Writes the descriptor.
    pub fn describe(&self) -> (r: String)
        ensures
            r@ == self.descriptor(),
    {
        match self {
            Type::Of(f, a) => {
                let mut r = String::from_str(f.opening());
                r.append(a.name());
                if let Family::Pair = f {
                    r.append(", ");
                    r.append(a.name());
                }
                r.append(f.closing());
                proof {
                    reveal_strlit("(");
                    reveal_strlit(", ");
                    reveal_strlit(")");
                    assert(r@ =~= self.descriptor());
                }
                r
            },
            Type::Named(p) => String::from_str(p.name()),
        }
    }

    /// Whether the registry holds the type: records are of any primitive
    /// type, bounds and distances are numbers, and only floats have a null
    /// value of their own.
    pub open spec fn spec_supported(self) -> bool {
        match self {
            Type::Of(f, a) => match f {
                Family::Plain => true,
                Family::Vector | Family::Optional | Family::AllDomain | Family::VectorOfAll
                | Family::SizedVectorOfAll | Family::OptionNullDomain => a.spec_is_primitive(),
                Family::InherentNullDomain => a.spec_is_float(),
                _ => a.spec_is_number(),
            },
            Type::Named(_) => true,
        }
    }

    /// Decides whether the registry holds the type.
    #[verifier::when_used_as_spec(spec_supported)]
    pub fn supported(self) -> (b: bool)
        ensures
            b == self.spec_supported(),
    {
        match self {
            Type::Of(f, a) => match f {
                Family::Plain => true,
                Family::Vector
                | Family::Optional
                | Family::AllDomain
                | Family::VectorOfAll
                | Family::SizedVectorOfAll
                | Family::OptionNullDomain => a.is_primitive(),
                Family::InherentNullDomain => a.is_float(),
                _ => a.is_number(),
            },
            Type::Named(_) => true,
        }
    }

    /// The registry: the named shapes, then each family with each atom.
    pub open spec fn spec_registry() -> Seq<Type> {
        Seq::new(
            (6 + 18 * 13) as nat,
            |i: int|
                if i < 6 {
                    Type::Named(Nullary::spec_all()[i])
                } else {
                    Type::Of(Family::spec_all()[(i - 6) / 13], Atom::spec_all()[(i - 6) % 13])
                },
        )
    }

    /// Lists the registry.
    pub fn registry() -> (r: Vec<Type>)
        ensures
            r@ == Self::spec_registry(),
    {
        let named = Nullary::all();
        let families = Family::all();
        let atoms = Atom::all();
        let mut r: Vec<Type> = Vec::new();
        let mut i: usize = 0;
        while i < named.len()
            invariant
                i <= named.len(),
                named@ == Nullary::spec_all(),
                r.len() == i,
                forall|j: int| 0 <= j < i ==> #[trigger] r@[j] == Self::spec_registry()[j],
            decreases named.len() - i,
        {
            r.push(Type::Named(named[i]));
            i = i + 1;
        }
        let mut f: usize = 0;
        while f < families.len()
            invariant
                f <= families.len(),
                families@ == Family::spec_all(),
                atoms@ == Atom::spec_all(),
                r.len() == 6 + f * 13,
                forall|j: int| 0 <= j < r.len() ==> #[trigger] r@[j] == Self::spec_registry()[j],
            decreases families.len() - f,
        {
            let mut a: usize = 0;
            while a < atoms.len()
                invariant
                    f < families.len(),
                    a <= atoms.len(),
                    families@ == Family::spec_all(),
                    atoms@ == Atom::spec_all(),
                    r.len() == 6 + f * 13 + a,
                    forall|j: int| 0 <= j < r.len() ==> #[trigger] r@[j] == Self::spec_registry()[j],
                decreases atoms.len() - a,
            {
                proof {
                    let i = (6 + f * 13 + a) as int;
                    assert((i - 6) / 13 == f && (i - 6) % 13 == a) by (nonlinear_arith)
                        requires
                            i == 6 + f * 13 + a,
                            0 <= a < 13,
                            0 <= f,
                    ;
                }
                r.push(Type::Of(families[f], atoms[a]));
                a = a + 1;
            }
            f = f + 1;
        }
        assert(r@ =~= Self::spec_registry());
        r
    }

    /// The first supported type among `types` whose descriptor is `descriptor`.
    pub open spec fn first_match(types: Seq<Type>, descriptor: Seq<char>) -> Option<Type>
        decreases types.len(),
    {
        if types.len() == 0 {
            None
        } else if types[0].spec_supported() && types[0].descriptor() == descriptor {
            Some(types[0])
        } else {
            Self::first_match(types.subrange(1, types.len() as int), descriptor)
        }
    }

    /// The type that a descriptor stands for: its first match in the registry.
    pub open spec fn lookup(descriptor: Seq<char>) -> Option<Type> {
        Self::first_match(Self::spec_registry(), descriptor)
    }

    /// Skipping entries that do not match does not change the first match.
    pub proof fn lemma_first_match_skips(types: Seq<Type>, descriptor: Seq<char>, n: int)
        requires
            0 <= n <= types.len(),
            forall|j: int|
                0 <= j < n ==> !((#[trigger] types[j]).spec_supported() && types[j].descriptor() == descriptor),
        ensures
            Self::first_match(types, descriptor) == Self::first_match(
                types.subrange(n, types.len() as int),
                descriptor,
            ),
        decreases n,
    {
        if n == 0 {
            assert(types.subrange(0, types.len() as int) =~= types);
        } else {
            let rest = types.subrange(1, types.len() as int);
            assert forall|j: int| 0 <= j < n - 1 implies !((#[trigger] rest[j]).spec_supported()
                && rest[j].descriptor() == descriptor) by {
                assert(rest[j] == types[j + 1]);
            }
            Self::lemma_first_match_skips(rest, descriptor, n - 1);
            assert(rest.subrange(n - 1, rest.len() as int) =~= types.subrange(n, types.len() as int));
        }
    }

    /// A descriptor that is looked up with success is the descriptor of the
    /// supported type that is found.
    pub proof fn lemma_lookup_sound(descriptor: Seq<char>)
        ensures
            Self::lookup(descriptor) matches Some(t) ==> t.spec_supported() && t.descriptor() == descriptor,
    {
        Self::lemma_first_match_sound(Self::spec_registry(), descriptor);
    }

    proof fn lemma_first_match_sound(types: Seq<Type>, descriptor: Seq<char>)
        ensures
            Self::first_match(types, descriptor) matches Some(t) ==> t.spec_supported() && t.descriptor()
                == descriptor,
        decreases types.len(),
    {
        if types.len() > 0 {
            Self::lemma_first_match_sound(types.subrange(1, types.len() as int), descriptor);
        }
    }

    /// Every supported type is found under its own descriptor.
    pub proof fn lemma_lookup_complete(t: Type)
        requires
            t.spec_supported(),
        ensures
            Self::lookup(t.descriptor()) == Some(t),
    {
        Self::lemma_lookup_finds(t);
        Self::lemma_lookup_sound(t.descriptor());
        lemma_descriptor_injective(Self::lookup(t.descriptor()).unwrap(), t);
    }

    proof fn lemma_lookup_finds(t: Type)
        requires
            t.spec_supported(),
        ensures
            Self::lookup(t.descriptor()).is_some(),
    {
        let reg = Self::spec_registry();
        let i: int = match t {
            Type::Named(p) => Self::index_of_named(p),
            Type::Of(f, a) => 6 + Self::index_of_family(f) * 13 + Self::index_of_atom(a),
        };
        match t {
            Type::Named(p) => {
                assert(reg[i] == t);
            },
            Type::Of(f, a) => {
                let fi = Self::index_of_family(f);
                let ai = Self::index_of_atom(a);
                assert((i - 6) / 13 == fi && (i - 6) % 13 == ai) by (nonlinear_arith)
                    requires
                        i == 6 + fi * 13 + ai,
                        0 <= ai < 13,
                        0 <= fi,
                ;
                assert(reg[i] == t);
            },
        }
        Self::lemma_first_match_finds(reg, t.descriptor(), i);
    }

    proof fn lemma_first_match_finds(types: Seq<Type>, descriptor: Seq<char>, i: int)
        requires
            0 <= i < types.len(),
            types[i].spec_supported(),
            types[i].descriptor() == descriptor,
        ensures
            Self::first_match(types, descriptor).is_some(),
        decreases types.len(),
    {
        if !(types[0].spec_supported() && types[0].descriptor() == descriptor) {
            let rest = types.subrange(1, types.len() as int);
            assert(rest[i - 1] == types[i]);
            Self::lemma_first_match_finds(rest, descriptor, i - 1);
        }
    }

    /// The place of a named shape in the registry.
    pub open spec fn index_of_named(p: Nullary) -> int {
        match p {
            Nullary::SymmetricDistance => 0,
            Nullary::InsertDeleteDistance => 1,
            Nullary::ChangeOneDistance => 2,
            Nullary::HammingDistance => 3,
            Nullary::DiscreteDistance => 4,
            Nullary::AgnosticMetric => 5,
        }
    }

    /// The place of a family among the families.
    pub open spec fn index_of_family(f: Family) -> int {
        match f {
            Family::Plain => 0,
            Family::Vector => 1,
            Family::Optional => 2,
            Family::Pair => 3,
            Family::AllDomain => 4,
            Family::BoundedDomain => 5,
            Family::VectorOfAll => 6,
            Family::VectorOfBounded => 7,
            Family::SizedVectorOfAll => 8,
            Family::SizedVectorOfBounded => 9,
            Family::OptionNullDomain => 10,
            Family::InherentNullDomain => 11,
            Family::AbsoluteDistance => 12,
            Family::L1Distance => 13,
            Family::L2Distance => 14,
            Family::MaxDivergence => 15,
            Family::FixedSmoothedMaxDivergence => 16,
            Family::ZeroConcentratedDivergence => 17,
        }
    }

    /// The place of an atom among the atoms.
    pub open spec fn index_of_atom(a: Atom) -> int {
        match a {
            Atom::Bool => 0,
            Atom::I8 => 1,
            Atom::I16 => 2,
            Atom::I32 => 3,
            Atom::I64 => 4,
            Atom::U8 => 5,
            Atom::U16 => 6,
            Atom::U32 => 7,
            Atom::U64 => 8,
            Atom::F32 => 9,
            Atom::F64 => 10,
            Atom::Text => 11,
            Atom::Unit => 12,
        }
    }

    /// Parses a descriptor against the registry. Fails with `TypeParse`
    /// exactly when the registry holds no supported type with the descriptor.
    pub fn try_from(descriptor: &str) -> (r: Fallible<Type>)
        ensures
            match Self::lookup(descriptor@) {
                Some(t) => r == Ok::<Type, Error>(t),
                None => fails_with(r, ErrorVariant::TypeParse),
            },
    {
        let wanted = String::from_str(descriptor);
        let registry = Self::registry();
        let mut i: usize = 0;
        while i < registry.len()
            invariant
                i <= registry.len(),
                wanted@ == descriptor@,
                registry@ == Self::spec_registry(),
                forall|j: int|
                    0 <= j < i ==> !((#[trigger] registry@[j]).spec_supported() && registry@[j].descriptor()
                        == descriptor@),
            decreases registry.len() - i,
        {
            let candidate = registry[i];
            if candidate.supported() && candidate.describe() == wanted {
                proof {
                    Self::lemma_first_match_skips(registry@, descriptor@, i as int);
                    assert(registry@.subrange(i as int, registry@.len() as int)[0] == candidate);
                }
                return Ok(candidate);
            }
            i = i + 1;
        }
        proof {
            Self::lemma_first_match_skips(registry@, descriptor@, registry@.len() as int);
        }
        let mut message = String::from_str("failed to parse type: ");
        message.append(descriptor);
        Err(Error::new(ErrorVariant::TypeParse, Some(message)))
    }

    /// The atom that the type is built on; the metrics on datasets have none.
    pub fn get_atom(&self) -> (r: Fallible<Atom>)
        ensures
            match *self {
                Type::Of(_, a) => r == Ok::<Atom, Error>(a),
                Type::Named(_) => fails_with(r, ErrorVariant::TypeParse),
            },
    {
        match self {
            Type::Of(_, a) => Ok(*a),
            Type::Named(_) => Err(Error::with_message(ErrorVariant::TypeParse, "the type is not built on an atom")),
        }
    }

    /// The type of the members of a domain, if `self` names a domain.
    pub open spec fn spec_carrier_type(self) -> Option<Type> {
        match self {
            Type::Of(Family::AllDomain, a) => Some(Type::Of(Family::Plain, a)),
            Type::Of(Family::BoundedDomain, a) => Some(Type::Of(Family::Plain, a)),
            Type::Of(Family::InherentNullDomain, a) => Some(Type::Of(Family::Plain, a)),
            Type::Of(Family::OptionNullDomain, a) => Some(Type::Of(Family::Optional, a)),
            Type::Of(Family::VectorOfAll, a) => Some(Type::Of(Family::Vector, a)),
            Type::Of(Family::VectorOfBounded, a) => Some(Type::Of(Family::Vector, a)),
            Type::Of(Family::SizedVectorOfAll, a) => Some(Type::Of(Family::Vector, a)),
            Type::Of(Family::SizedVectorOfBounded, a) => Some(Type::Of(Family::Vector, a)),
            _ => None,
        }
    }

    /// The type of the distances of a metric or of a measure, if `self` names one.
    pub open spec fn spec_distance_type(self) -> Option<Type> {
        match self {
            Type::Named(Nullary::AgnosticMetric) => Some(Type::Of(Family::Plain, Atom::Unit)),
            Type::Named(_) => Some(Type::Of(Family::Plain, Atom::U32)),
            Type::Of(Family::AbsoluteDistance, a) => Some(Type::Of(Family::Plain, a)),
            Type::Of(Family::L1Distance, a) => Some(Type::Of(Family::Plain, a)),
            Type::Of(Family::L2Distance, a) => Some(Type::Of(Family::Plain, a)),
            Type::Of(Family::MaxDivergence, a) => Some(Type::Of(Family::Plain, a)),
            Type::Of(Family::ZeroConcentratedDivergence, a) => Some(Type::Of(Family::Plain, a)),
            Type::Of(Family::FixedSmoothedMaxDivergence, a) => Some(Type::Of(Family::Pair, a)),
            _ => None,
        }
    }

    /// Whether `self` names a metric.
    pub open spec fn spec_is_metric(self) -> bool {
        match self {
            Type::Named(_) => true,
            Type::Of(f, _) => f.spec_is_metric(),
        }
    }

    /// Whether `self` names a measure.
    pub open spec fn spec_is_measure(self) -> bool {
        match self {
            Type::Named(_) => false,
            Type::Of(f, _) => f.spec_is_measure(),
        }
    }

    /// The type of the members of the domain that `self` names; fails with
    /// `TypeParse` exactly when `self` does not name a domain.
    pub fn carrier_type(&self) -> (r: Fallible<Type>)
        ensures
            match self.spec_carrier_type() {
                Some(t) => r == Ok::<Type, Error>(t),
                None => fails_with(r, ErrorVariant::TypeParse),
            },
    {
        match self {
            Type::Of(Family::AllDomain, a) => Ok(Type::Of(Family::Plain, *a)),
            Type::Of(Family::BoundedDomain, a) => Ok(Type::Of(Family::Plain, *a)),
            Type::Of(Family::InherentNullDomain, a) => Ok(Type::Of(Family::Plain, *a)),
            Type::Of(Family::OptionNullDomain, a) => Ok(Type::Of(Family::Optional, *a)),
            Type::Of(Family::VectorOfAll, a) => Ok(Type::Of(Family::Vector, *a)),
            Type::Of(Family::VectorOfBounded, a) => Ok(Type::Of(Family::Vector, *a)),
            Type::Of(Family::SizedVectorOfAll, a) => Ok(Type::Of(Family::Vector, *a)),
            Type::Of(Family::SizedVectorOfBounded, a) => Ok(Type::Of(Family::Vector, *a)),
            _ => Err(Error::with_message(ErrorVariant::TypeParse, "the type does not name a domain")),
        }
    }

    /// The type of the distances of the metric that `self` names; fails with
    /// `TypeParse` exactly when `self` does not name a metric.
    pub fn metric_distance_type(&self) -> (r: Fallible<Type>)
        ensures
            self.spec_is_metric() ==> self.spec_distance_type().is_some() && r == Ok::<Type, Error>(
                self.spec_distance_type().unwrap(),
            ),
            !self.spec_is_metric() ==> fails_with(r, ErrorVariant::TypeParse),
    {
        match self {
            Type::Named(Nullary::AgnosticMetric) => Ok(Type::Of(Family::Plain, Atom::Unit)),
            Type::Named(_) => Ok(Type::Of(Family::Plain, Atom::U32)),
            Type::Of(Family::AbsoluteDistance, a) => Ok(Type::Of(Family::Plain, *a)),
            Type::Of(Family::L1Distance, a) => Ok(Type::Of(Family::Plain, *a)),
            Type::Of(Family::L2Distance, a) => Ok(Type::Of(Family::Plain, *a)),
            _ => Err(Error::with_message(ErrorVariant::TypeParse, "the type does not name a metric")),
        }
    }

    /// The type of the distances of the measure that `self` names; fails with
    /// `TypeParse` exactly when `self` does not name a measure.
    pub fn measure_distance_type(&self) -> (r: Fallible<Type>)
        ensures
            self.spec_is_measure() ==> self.spec_distance_type().is_some() && r == Ok::<Type, Error>(
                self.spec_distance_type().unwrap(),
            ),
            !self.spec_is_measure() ==> fails_with(r, ErrorVariant::TypeParse),
    {
        match self {
            Type::Of(Family::MaxDivergence, a) => Ok(Type::Of(Family::Plain, *a)),
            Type::Of(Family::ZeroConcentratedDivergence, a) => Ok(Type::Of(Family::Plain, *a)),
            Type::Of(Family::FixedSmoothedMaxDivergence, a) => Ok(Type::Of(Family::Pair, *a)),
            _ => Err(Error::with_message(ErrorVariant::TypeParse, "the type does not name a measure")),
        }
    }
}

/// Whether the text holds no opening angle bracket.
pub open spec fn no_open(s: Seq<char>) -> bool {
    forall|i: int| 0 <= i < s.len() ==> s[i] != '<'
}

/// Distinct atoms have distinct names, and no name holds an angle bracket.
pub proof fn lemma_atom_names(a: Atom, b: Atom)
    ensures
        a.spec_name() == b.spec_name() ==> a == b,
        no_open(a.spec_name()),
        forall|i: int| 0 <= i < a.spec_name().len() ==> a.spec_name()[i] != '>',
        2 <= a.spec_name().len() <= 6,
{
    reveal_strlit("bool");
    reveal_strlit("i8");
    reveal_strlit("i16");
    reveal_strlit("i32");
    reveal_strlit("i64");
    reveal_strlit("u8");
    reveal_strlit("u16");
    reveal_strlit("u32");
    reveal_strlit("u64");
    reveal_strlit("f32");
    reveal_strlit("f64");
    reveal_strlit("String");
    reveal_strlit("()");
    let x = a.spec_name();
    let y = b.spec_name();
    if x == y {
        assert(x.len() == y.len());
        assert(x[0] == y[0]);
        assert(x[1] == y[1]);
    }
    assert forall|i: int| 0 <= i < x.len() implies x[i] != '<' && x[i] != '>' by {
        if i == 0 {
        } else if i == 1 {
        } else if i == 2 {
        } else if i == 3 {
        } else if i == 4 {
        } else {
            assert(i == 5);
        }
    }
}

/// Distinct families have distinct openings, every opening but the empty
/// one and that of pairs ends with an angle bracket, and no closing holds an
/// opening angle bracket.
pub proof fn lemma_family_texts(f: Family, g: Family)
    ensures
        f.spec_opening() == g.spec_opening() ==> f == g,
        f != Family::Plain && f != Family::Pair ==> f.spec_opening().len() > 0 && f.spec_opening().last() == '<',
        no_open(f.spec_closing()),
{
    reveal_strlit("");
    reveal_strlit("Vec<");
    reveal_strlit("Option<");
    reveal_strlit("(");
    reveal_strlit("AllDomain<");
    reveal_strlit("BoundedDomain<");
    reveal_strlit("VectorDomain<AllDomain<");
    reveal_strlit("VectorDomain<BoundedDomain<");
    reveal_strlit("SizedDomain<VectorDomain<AllDomain<");
    reveal_strlit("SizedDomain<VectorDomain<BoundedDomain<");
    reveal_strlit("OptionNullDomain<AllDomain<");
    reveal_strlit("InherentNullDomain<AllDomain<");
    reveal_strlit("AbsoluteDistance<");
    reveal_strlit("L1Distance<");
    reveal_strlit("L2Distance<");
    reveal_strlit("MaxDivergence<");
    reveal_strlit("FixedSmoothedMaxDivergence<");
    reveal_strlit("ZeroConcentratedDivergence<");
    reveal_strlit(">");
    reveal_strlit(">>");
    reveal_strlit(">>>");
    reveal_strlit(")");
    let x = f.spec_opening();
    let y = g.spec_opening();
    match f {
        Family::Plain => {
            assert(x.len() == 0);
        },
        Family::Vector => {
            assert(x.len() == 4 && x[0] == 'V' && x[1] == 'e' && x[3] == '<');
        },
        Family::Optional => {
            assert(x.len() == 7 && x[0] == 'O' && x[1] == 'p' && x[6] == '<');
        },
        Family::Pair => {
            assert(x.len() == 1);
        },
        Family::AllDomain => {
            assert(x.len() == 10 && x[0] == 'A' && x[1] == 'l' && x[9] == '<');
        },
        Family::BoundedDomain => {
            assert(x.len() == 14 && x[0] == 'B' && x[1] == 'o' && x[13] == '<');
        },
        Family::VectorOfAll => {
            assert(x.len() == 23 && x[0] == 'V' && x[1] == 'e' && x[22] == '<');
        },
        Family::VectorOfBounded => {
            assert(x.len() == 27 && x[0] == 'V' && x[1] == 'e' && x[26] == '<');
        },
        Family::SizedVectorOfAll => {
            assert(x.len() == 35 && x[0] == 'S' && x[1] == 'i' && x[34] == '<');
        },
        Family::SizedVectorOfBounded => {
            assert(x.len() == 39 && x[0] == 'S' && x[1] == 'i' && x[38] == '<');
        },
        Family::OptionNullDomain => {
            assert(x.len() == 27 && x[0] == 'O' && x[1] == 'p' && x[26] == '<');
        },
        Family::InherentNullDomain => {
            assert(x.len() == 29 && x[0] == 'I' && x[1] == 'n' && x[28] == '<');
        },
        Family::AbsoluteDistance => {
            assert(x.len() == 17 && x[0] == 'A' && x[1] == 'b' && x[16] == '<');
        },
        Family::L1Distance => {
            assert(x.len() == 11 && x[0] == 'L' && x[1] == '1' && x[10] == '<');
        },
        Family::L2Distance => {
            assert(x.len() == 11 && x[0] == 'L' && x[1] == '2' && x[10] == '<');
        },
        Family::MaxDivergence => {
            assert(x.len() == 14 && x[0] == 'M' && x[1] == 'a' && x[13] == '<');
        },
        Family::FixedSmoothedMaxDivergence => {
            assert(x.len() == 27 && x[0] == 'F' && x[1] == 'i' && x[26] == '<');
        },
        Family::ZeroConcentratedDivergence => {
            assert(x.len() == 27 && x[0] == 'Z' && x[1] == 'e' && x[26] == '<');
        },
    }
    match g {
        Family::Plain => {
            assert(y.len() == 0);
        },
        Family::Vector => {
            assert(y.len() == 4 && y[0] == 'V' && y[1] == 'e');
        },
        Family::Optional => {
            assert(y.len() == 7 && y[0] == 'O' && y[1] == 'p');
        },
        Family::Pair => {
            assert(y.len() == 1);
        },
        Family::AllDomain => {
            assert(y.len() == 10 && y[0] == 'A' && y[1] == 'l');
        },
        Family::BoundedDomain => {
            assert(y.len() == 14 && y[0] == 'B' && y[1] == 'o');
        },
        Family::VectorOfAll => {
            assert(y.len() == 23 && y[0] == 'V' && y[1] == 'e');
        },
        Family::VectorOfBounded => {
            assert(y.len() == 27 && y[0] == 'V' && y[1] == 'e');
        },
        Family::SizedVectorOfAll => {
            assert(y.len() == 35 && y[0] == 'S' && y[1] == 'i');
        },
        Family::SizedVectorOfBounded => {
            assert(y.len() == 39 && y[0] == 'S' && y[1] == 'i');
        },
        Family::OptionNullDomain => {
            assert(y.len() == 27 && y[0] == 'O' && y[1] == 'p');
        },
        Family::InherentNullDomain => {
            assert(y.len() == 29 && y[0] == 'I' && y[1] == 'n');
        },
        Family::AbsoluteDistance => {
            assert(y.len() == 17 && y[0] == 'A' && y[1] == 'b');
        },
        Family::L1Distance => {
            assert(y.len() == 11 && y[0] == 'L' && y[1] == '1');
        },
        Family::L2Distance => {
            assert(y.len() == 11 && y[0] == 'L' && y[1] == '2');
        },
        Family::MaxDivergence => {
            assert(y.len() == 14 && y[0] == 'M' && y[1] == 'a');
        },
        Family::FixedSmoothedMaxDivergence => {
            assert(y.len() == 27 && y[0] == 'F' && y[1] == 'i');
        },
        Family::ZeroConcentratedDivergence => {
            assert(y.len() == 27 && y[0] == 'Z' && y[1] == 'e');
        },
    }
    let c = f.spec_closing();
    assert forall|i: int| 0 <= i < c.len() implies c[i] != '<' by {
        if i == 0 {
        } else if i == 1 {
        } else {
            assert(i == 2);
        }
    }
}

/// Distinct named shapes have distinct names; a name holds no opening angle
/// bracket, does not start with a parenthesis, and is longer than any atom's.
pub proof fn lemma_named_names(p: Nullary, q: Nullary)
    ensures
        p.spec_name() == q.spec_name() ==> p == q,
        no_open(p.spec_name()),
        p.spec_name().len() >= 14,
        p.spec_name()[0] != '(',
{
    reveal_strlit("SymmetricDistance");
    reveal_strlit("InsertDeleteDistance");
    reveal_strlit("ChangeOneDistance");
    reveal_strlit("HammingDistance");
    reveal_strlit("DiscreteDistance");
    reveal_strlit("AgnosticMetric");
    let x = p.spec_name();
    let y = q.spec_name();
    if x == y {
        assert(x.len() == y.len());
        assert(x[0] == y[0]);
    }
    assert forall|i: int| 0 <= i < x.len() implies x[i] != '<' by {
        if i < 5 {
            if i == 0 {
            } else if i == 1 {
            } else if i == 2 {
            } else if i == 3 {
            } else {
                assert(i == 4);
            }
        } else if i < 10 {
            if i == 5 {
            } else if i == 6 {
            } else if i == 7 {
            } else if i == 8 {
            } else {
                assert(i == 9);
            }
        } else if i < 15 {
            if i == 10 {
            } else if i == 11 {
            } else if i == 12 {
            } else if i == 13 {
            } else {
                assert(i == 14);
            }
        } else {
            if i == 15 {
            } else if i == 16 {
            } else if i == 17 {
            } else if i == 18 {
            } else {
                assert(i == 19);
            }
        }
    }
}

/// The part of a descriptor up to its last opening angle bracket.
pub open spec fn head(t: Type) -> Seq<char> {
    match t {
        Type::Of(Family::Pair, _) => Seq::empty(),
        Type::Of(f, _) => f.spec_opening(),
        Type::Named(_) => Seq::empty(),
    }
}

/// The part of a descriptor after its last opening angle bracket.
pub open spec fn tail(t: Type) -> Seq<char> {
    match t {
        Type::Of(Family::Pair, a) => "("@ + a.spec_name() + ", "@ + a.spec_name() + ")"@,
        Type::Of(f, a) => a.spec_name() + f.spec_closing(),
        Type::Named(p) => p.spec_name(),
    }
}

/// A descriptor is its head followed by its tail; the head is empty or ends
/// with an opening angle bracket, and the tail holds none.
pub proof fn lemma_split(t: Type)
    ensures
        t.descriptor() == head(t) + tail(t),
        head(t).len() == 0 || head(t).last() == '<',
        no_open(tail(t)),
{
    reveal_strlit("");
    reveal_strlit("(");
    reveal_strlit(", ");
    reveal_strlit(")");
    match t {
        Type::Of(f, a) => {
            lemma_atom_names(a, a);
            lemma_family_texts(f, f);
            assert(t.descriptor() =~= head(t) + tail(t));
            let n = a.spec_name();
            let c = f.spec_closing();
            if f == Family::Pair {
                assert forall|i: int| 0 <= i < tail(t).len() implies tail(t)[i] != '<' by {
                    if i == 0 {
                    } else if i < 1 + n.len() {
                        assert(tail(t)[i] == n[i - 1]);
                    } else if i < 3 + n.len() {
                        assert(tail(t)[i] == ", "@[i - 1 - n.len()]);
                    } else if i < 3 + 2 * n.len() {
                        assert(tail(t)[i] == n[i - 3 - n.len()]);
                    } else {
                        assert(tail(t)[i] == ")"@[i - 3 - 2 * n.len()]);
                    }
                }
            } else {
                assert forall|i: int| 0 <= i < tail(t).len() implies tail(t)[i] != '<' by {
                    if i < n.len() {
                        assert(tail(t)[i] == n[i]);
                    } else {
                        assert(tail(t)[i] == c[i - n.len()]);
                    }
                }
            }
        },
        Type::Named(p) => {
            lemma_named_names(p, p);
            assert(t.descriptor() =~= head(t) + tail(t));
        },
    }
}

/// Two texts that split in this way and are equal split at the same place.
pub proof fn lemma_same_split(h1: Seq<char>, t1: Seq<char>, h2: Seq<char>, t2: Seq<char>)
    requires
        h1 + t1 == h2 + t2,
        h1.len() == 0 || h1.last() == '<',
        h2.len() == 0 || h2.last() == '<',
        no_open(t1),
        no_open(t2),
    ensures
        h1 == h2,
        t1 == t2,
{
    let s = h1 + t1;
    assert(s.len() == h1.len() + t1.len());
    assert((h2 + t2).len() == h2.len() + t2.len());
    if h1.len() < h2.len() {
        let k = h2.len() - 1;
        assert((h2 + t2)[k] == h2[k]);
        assert((h1 + t1)[k] == t1[k - h1.len()]);
        assert(false);
    }
    if h2.len() < h1.len() {
        let k = h1.len() - 1;
        assert((h1 + t1)[k] == h1[k]);
        assert((h2 + t2)[k] == t2[k - h2.len()]);
        assert(false);
    }
    assert(h1 =~= s.subrange(0, h1.len() as int));
    assert(h2 =~= (h2 + t2).subrange(0, h2.len() as int));
    assert(t1 =~= s.subrange(h1.len() as int, s.len() as int));
    assert(t2 =~= (h2 + t2).subrange(h2.len() as int, s.len() as int));
}

/// Whether the head of the descriptor of `t` is empty.
pub open spec fn is_bare(t: Type) -> bool {
    match t {
        Type::Of(f, _) => f == Family::Plain || f == Family::Pair,
        Type::Named(_) => true,
    }
}

/// No two types share a descriptor.
pub proof fn lemma_descriptor_injective(t1: Type, t2: Type)
    requires
        t1.descriptor() == t2.descriptor(),
    ensures
        t1 == t2,
{
    lemma_split(t1);
    lemma_split(t2);
    lemma_same_split(head(t1), tail(t1), head(t2), tail(t2));
    reveal_strlit("");
    reveal_strlit("(");
    reveal_strlit(", ");
    reveal_strlit(")");
    match (t1, t2) {
        (Type::Of(f1, a1), Type::Of(f2, a2)) => {
            lemma_family_texts(f1, f2);
            lemma_family_texts(f2, f1);
            lemma_atom_names(a1, a2);
            lemma_atom_names(a2, a1);
            let n1 = a1.spec_name();
            let n2 = a2.spec_name();
            if is_bare(t1) != is_bare(t2) {
                assert(false);
            } else if !is_bare(t1) {
                assert(f1 == f2);
                let c = f1.spec_closing();
                assert(n1.len() == n2.len());
                assert(n1 =~= (n1 + c).subrange(0, n1.len() as int));
                assert(n2 =~= (n2 + c).subrange(0, n2.len() as int));
            } else if f1 == Family::Plain && f2 == Family::Plain {
                assert(n1 =~= tail(t1));
                assert(n2 =~= tail(t2));
            } else if f1 == Family::Pair && f2 == Family::Pair {
                assert(tail(t1).len() == 2 * n1.len() + 4);
                assert(tail(t2).len() == 2 * n2.len() + 4);
                assert(n1 =~= tail(t1).subrange(1, 1 + n1.len() as int));
                assert(n2 =~= tail(t2).subrange(1, 1 + n2.len() as int));
            } else if f1 == Family::Pair {
                assert(tail(t1).len() == 2 * n1.len() + 4);
                assert(tail(t2) =~= n2);
                assert(false);
            } else {
                assert(tail(t2).len() == 2 * n2.len() + 4);
                assert(tail(t1) =~= n1);
                assert(false);
            }
        },
        (Type::Named(p1), Type::Named(p2)) => {
            lemma_named_names(p1, p2);
        },
        (Type::Of(f, a), Type::Named(p)) => {
            lemma_family_texts(f, f);
            lemma_atom_names(a, a);
            lemma_named_names(p, p);
            let n = a.spec_name();
            if f == Family::Plain {
                assert(tail(t1) =~= n);
            } else if f == Family::Pair {
                assert(tail(t1)[0] == '(');
            }
            assert(false);
        },
        (Type::Named(p), Type::Of(f, a)) => {
            lemma_family_texts(f, f);
            lemma_atom_names(a, a);
            lemma_named_names(p, p);
            let n = a.spec_name();
            if f == Family::Plain {
                assert(tail(t2) =~= n);
            } else if f == Family::Pair {
                assert(tail(t2)[0] == '(');
            }
            assert(false);
        },
    }
}

} // verus!
