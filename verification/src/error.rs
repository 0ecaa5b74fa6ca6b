//! The closed error taxonomy shared by every constructor, combinator and invocation.
use backtrace::Backtrace;
use vstd::prelude::*;
use vstd::std_specs::cmp::PartialEqSpecImpl;
use vstd::string::StringExecFns;

verus! {

/// The kind of failure. The first eleven variants form the set that the
/// boundary error record can carry; the last two are raised only in-process.
#[derive(Clone, Copy, Debug, PartialEq, Eq, Structural)]
pub enum ErrorVariant {
    FFI,
    TypeParse,
    FailedFunction,
    FailedRelation,
    RelationDebug,
    FailedCast,
    DomainMismatch,
    MakeTransformation,
    MakeMeasurement,
    InvalidDistance,
    NotImplemented,
    MetricMismatch,
    InvalidMetricSpace,
}

/// Captured call stack of the `backtrace` crate; nothing inside it is visible to proofs.
#[verifier::external_type_specification]
#[verifier::external_body]
pub struct ExBacktrace(Backtrace);

/// `Backtrace::new_unresolved` records the current call stack without
/// resolving symbols. What it records depends on the running process, so
/// nothing is claimed of the result.
pub assume_specification[ Backtrace::new_unresolved ]() -> (trace: Backtrace)
;

/// `Backtrace::resolve` looks up the symbols of the recorded frames in place.
/// Nothing is claimed of the resolved trace.
pub assume_specification[ Backtrace::resolve ](trace: &mut Backtrace)
;

/// Renders a trace through the `Debug` impl of `backtrace::Backtrace`. The text
/// depends on the frames, the symbols found and the working directory, so
/// nothing is claimed of it.
#[verifier::external_body]
pub(crate) fn render_backtrace(trace: &Backtrace) -> (text: String) {
    format!("{:?}", trace)
}

/// An error: its kind, an optional explanation, and where it was raised.
#[derive(Debug)]
pub struct Error {
    pub variant: ErrorVariant,
    pub message: Option<String>,
    pub backtrace: Backtrace,
}

/// The result of everything that can fail.
pub type Fallible<T> = Result<T, Error>;

/// What two errors are compared by: kind and message, never the trace.
pub struct ErrorView {
    pub variant: ErrorVariant,
    pub message: Option<Seq<char>>,
}

impl View for Error {
    type V = ErrorView;

    open spec fn view(&self) -> ErrorView {
        ErrorView {
            variant: self.variant,
            message: match self.message {
                Some(m) => Some(m@),
                None => None,
            },
        }
    }
}

/// The outcome of a fallible computation with only the kind of a failure kept.
pub open spec fn kind<T>(r: Fallible<T>) -> Result<T, ErrorVariant> {
    match r {
        Ok(v) => Ok(v),
        Err(e) => Err(e.variant),
    }
}

/// Whether `r` failed with an error of kind `variant`.
pub open spec fn fails_with<T>(r: Fallible<T>, variant: ErrorVariant) -> bool {
    r matches Err(e) && e.variant == variant
}

impl ErrorVariant {
    /// The name under which the variant travels across the boundary.
    pub open spec fn spec_name(self) -> Seq<char> {
        match self {
            ErrorVariant::FFI => "FFI"@,
            ErrorVariant::TypeParse => "TypeParse"@,
            ErrorVariant::FailedFunction => "FailedFunction"@,
            ErrorVariant::FailedRelation => "FailedRelation"@,
            ErrorVariant::RelationDebug => "RelationDebug"@,
            ErrorVariant::FailedCast => "FailedCast"@,
            ErrorVariant::DomainMismatch => "DomainMismatch"@,
            ErrorVariant::MakeTransformation => "MakeTransformation"@,
            ErrorVariant::MakeMeasurement => "MakeMeasurement"@,
            ErrorVariant::InvalidDistance => "InvalidDistance"@,
            ErrorVariant::NotImplemented => "NotImplemented"@,
            ErrorVariant::MetricMismatch => "MetricMismatch"@,
            ErrorVariant::InvalidMetricSpace => "InvalidMetricSpace"@,
        }
    }

    /// Whether the boundary error record recognises the variant when decoding.
    pub open spec fn on_wire(self) -> bool {
        self != ErrorVariant::MetricMismatch && self != ErrorVariant::InvalidMetricSpace
    }

    /// The variant that a boundary name decodes to, if it names one of the wire set.
    pub open spec fn spec_from_name(name: Seq<char>) -> Option<ErrorVariant> {
        if name == "FFI"@ {
            Some(ErrorVariant::FFI)
        } else if name == "TypeParse"@ {
            Some(ErrorVariant::TypeParse)
        } else if name == "FailedFunction"@ {
            Some(ErrorVariant::FailedFunction)
        } else if name == "FailedRelation"@ {
            Some(ErrorVariant::FailedRelation)
        } else if name == "RelationDebug"@ {
            Some(ErrorVariant::RelationDebug)
        } else if name == "FailedCast"@ {
            Some(ErrorVariant::FailedCast)
        } else if name == "DomainMismatch"@ {
            Some(ErrorVariant::DomainMismatch)
        } else if name == "MakeTransformation"@ {
            Some(ErrorVariant::MakeTransformation)
        } else if name == "MakeMeasurement"@ {
            Some(ErrorVariant::MakeMeasurement)
        } else if name == "InvalidDistance"@ {
            Some(ErrorVariant::InvalidDistance)
        } else if name == "NotImplemented"@ {
            Some(ErrorVariant::NotImplemented)
        } else {
            None
        }
    }

    /// Writes the name of the variant.
    pub fn name(&self) -> (r: String)
        ensures
            r@ == self.spec_name(),
    {
        match self {
            ErrorVariant::FFI => String::from_str("FFI"),
            ErrorVariant::TypeParse => String::from_str("TypeParse"),
            ErrorVariant::FailedFunction => String::from_str("FailedFunction"),
            ErrorVariant::FailedRelation => String::from_str("FailedRelation"),
            ErrorVariant::RelationDebug => String::from_str("RelationDebug"),
            ErrorVariant::FailedCast => String::from_str("FailedCast"),
            ErrorVariant::DomainMismatch => String::from_str("DomainMismatch"),
            ErrorVariant::MakeTransformation => String::from_str("MakeTransformation"),
            ErrorVariant::MakeMeasurement => String::from_str("MakeMeasurement"),
            ErrorVariant::InvalidDistance => String::from_str("InvalidDistance"),
            ErrorVariant::NotImplemented => String::from_str("NotImplemented"),
            ErrorVariant::MetricMismatch => String::from_str("MetricMismatch"),
            ErrorVariant::InvalidMetricSpace => String::from_str("InvalidMetricSpace"),
        }
    }

    /// Reads a variant of the wire set from its name.
    pub fn from_name(name: &String) -> (r: Option<ErrorVariant>)
        ensures
            r == Self::spec_from_name(name@),
    {
        if *name == String::from_str("FFI") {
            Some(ErrorVariant::FFI)
        } else if *name == String::from_str("TypeParse") {
            Some(ErrorVariant::TypeParse)
        } else if *name == String::from_str("FailedFunction") {
            Some(ErrorVariant::FailedFunction)
        } else if *name == String::from_str("FailedRelation") {
            Some(ErrorVariant::FailedRelation)
        } else if *name == String::from_str("RelationDebug") {
            Some(ErrorVariant::RelationDebug)
        } else if *name == String::from_str("FailedCast") {
            Some(ErrorVariant::FailedCast)
        } else if *name == String::from_str("DomainMismatch") {
            Some(ErrorVariant::DomainMismatch)
        } else if *name == String::from_str("MakeTransformation") {
            Some(ErrorVariant::MakeTransformation)
        } else if *name == String::from_str("MakeMeasurement") {
            Some(ErrorVariant::MakeMeasurement)
        } else if *name == String::from_str("InvalidDistance") {
            Some(ErrorVariant::InvalidDistance)
        } else if *name == String::from_str("NotImplemented") {
            Some(ErrorVariant::NotImplemented)
        } else {
            None
        }
    }

    /// Every variant of the wire set decodes from its own name, and the two
    /// in-process variants decode from theirs to nothing.
    pub proof fn lemma_name_round_trip(self)
        ensures
            self.on_wire() ==> Self::spec_from_name(self.spec_name()) == Some(self),
            !self.on_wire() ==> Self::spec_from_name(self.spec_name()).is_none(),
    {
        reveal_strlit("FFI");
        reveal_strlit("TypeParse");
        reveal_strlit("FailedFunction");
        reveal_strlit("FailedRelation");
        reveal_strlit("RelationDebug");
        reveal_strlit("FailedCast");
        reveal_strlit("DomainMismatch");
        reveal_strlit("MakeTransformation");
        reveal_strlit("MakeMeasurement");
        reveal_strlit("InvalidDistance");
        reveal_strlit("NotImplemented");
        reveal_strlit("MetricMismatch");
        reveal_strlit("InvalidMetricSpace");
        assert("FFI"@.len() == 3 && "FFI"@[0] == 'F');
        assert("TypeParse"@.len() == 9 && "TypeParse"@[0] == 'T');
        assert("FailedFunction"@.len() == 14 && "FailedFunction"@[0] == 'F');
        assert("FailedRelation"@.len() == 14 && "FailedRelation"@[0] == 'F');
        assert("RelationDebug"@.len() == 13 && "RelationDebug"@[0] == 'R');
        assert("FailedCast"@.len() == 10 && "FailedCast"@[0] == 'F');
        assert("DomainMismatch"@.len() == 14 && "DomainMismatch"@[0] == 'D');
        assert("MakeTransformation"@.len() == 18 && "MakeTransformation"@[0] == 'M');
        assert("MakeMeasurement"@.len() == 15 && "MakeMeasurement"@[0] == 'M');
        assert("InvalidDistance"@.len() == 15 && "InvalidDistance"@[0] == 'I');
        assert("NotImplemented"@.len() == 14 && "NotImplemented"@[0] == 'N');
        assert("MetricMismatch"@.len() == 14 && "MetricMismatch"@[0] == 'M');
        assert("InvalidMetricSpace"@.len() == 18 && "InvalidMetricSpace"@[0] == 'I');
        assert("FailedFunction"@[6] == 'F' && "FailedRelation"@[6] == 'R');
    }
}

impl Error {
    /// An error of kind `variant` with an optional explanation, raised here.
    pub fn new(variant: ErrorVariant, message: Option<String>) -> (e: Error)
        ensures
            e.variant == variant,
            e.message == message,
    {
        Error { variant, message, backtrace: Backtrace::new_unresolved() }
    }

    /// An error of kind `variant` that explains itself with `message`.
    pub fn with_message(variant: ErrorVariant, message: &str) -> (e: Error)
        ensures
            e@ == (ErrorView { variant, message: Some(message@) }),
    {
        Error { variant, message: Some(String::from_str(message)), backtrace: Backtrace::new_unresolved() }
    }
}

impl PartialEq for Error {
    fn eq(&self, other: &Self) -> (r: bool) {
        let same_message = match (&self.message, &other.message) {
            (Some(a), Some(b)) => *a == *b,
            (None, None) => true,
            _ => false,
        };
        self.variant == other.variant && same_message
    }
}

impl PartialEqSpecImpl for Error {
    open spec fn obeys_eq_spec() -> bool {
        true
    }

    open spec fn eq_spec(&self, other: &Self) -> bool {
        self@ == other@
    }
}

} // verus!
