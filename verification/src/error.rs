use vstd::prelude::*;

verus! {

/// The failure kinds a generation run can report.  Every failure is a
/// deterministic function of the input schema and of the registry state at
/// the moment of the failing ingestion call; the first failure aborts the
/// whole run.
#[derive(Debug, Clone)]
pub enum ApiGenError {
    /// A member type, underlying type or array element type was referenced
    /// before any item of that name was registered with a size.
    TypeNotFound(String),
    /// An array shorthand was recognized, but its count reference names no
    /// registered constant.
    ConstantNotFound(String),
    /// A type name looks array-like but does not match the
    /// `"[ElementType; CountReference]"` grammar.
    InvalidArrayTypeFormat(String),
    /// A constant's textual value did not parse as a non-negative integer.
    InvalidConstantValue { name: String, value: String },
    /// A resolved byte size does not fit the machine's size range.  The
    /// carried name is the type name of the member at which the running
    /// total first left that range.
    SizeOverflow(String),
    /// A required attribute was absent from the schema document.  Raised by
    /// the external schema reader, never by the engine itself; it shares the
    /// engine's error channel.
    MissingAttribute(String),
}

/// The mathematical image of an [`ApiGenError`]: the same tag over
/// character sequences instead of heap strings.  Contracts state which
/// error comes back in terms of this view.
pub enum ApiGenErrorView {
    TypeNotFound(Seq<char>),
    ConstantNotFound(Seq<char>),
    InvalidArrayTypeFormat(Seq<char>),
    InvalidConstantValue { name: Seq<char>, value: Seq<char> },
    SizeOverflow(Seq<char>),
    MissingAttribute(Seq<char>),
}

impl View for ApiGenError {
    type V = ApiGenErrorView;

    open spec fn view(&self) -> ApiGenErrorView {
        match self {
            ApiGenError::TypeNotFound(t) => ApiGenErrorView::TypeNotFound(t@),
            ApiGenError::ConstantNotFound(c) => ApiGenErrorView::ConstantNotFound(c@),
            ApiGenError::InvalidArrayTypeFormat(t) => ApiGenErrorView::InvalidArrayTypeFormat(t@),
            ApiGenError::InvalidConstantValue { name, value } => {
                ApiGenErrorView::InvalidConstantValue { name: name@, value: value@ }
            },
            ApiGenError::SizeOverflow(t) => ApiGenErrorView::SizeOverflow(t@),
            ApiGenError::MissingAttribute(a) => ApiGenErrorView::MissingAttribute(a@),
        }
    }
}

impl ApiGenError {
    /// A short human-readable account of the error, for reporting at the
    /// run's edge.
    pub fn describe(&self) -> &'static str {
        match self {
            ApiGenError::TypeNotFound(_) => "type not found",
            ApiGenError::ConstantNotFound(_) => "constant not found",
            ApiGenError::InvalidArrayTypeFormat(_) => "invalid array type format",
            ApiGenError::InvalidConstantValue { .. } => "invalid constant value",
            ApiGenError::SizeOverflow(_) => "size exceeds the machine range",
            ApiGenError::MissingAttribute(_) => "missing attribute",
        }
    }
}

} // verus!
