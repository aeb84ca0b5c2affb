use vstd::prelude::*;

verus! {

/// A lexical offense: the text does not follow the statement grammar.
#[derive(Clone, Copy, Debug, PartialEq, Eq, Structural)]
pub enum GrammarKind {
    /// Text other than whitespace stands before the first dot-keyword line.
    LeadingText,
    /// A dot-keyword line names no known keyword.
    UnknownKeyword,
    /// A quoted token is not closed before the text ends.
    UnterminatedQuote,
    /// A token does not have the shape its keyword asks for.
    BadToken,
}

/// A decoded statement's shape does not fit what its consumer expects.
/// The grammar should already have rejected such input, so this class
/// signals a defect rather than a user error; it is still surfaced.
#[derive(Clone, Copy, Debug, PartialEq, Eq, Structural)]
pub enum TranslationKind {
    /// A keyword that needs an argument got none.
    MissingArgument,
    /// An argument's kind does not fit the keyword.
    ArgumentShape,
    /// An end-of-input marker arrived with no open file on the stack.
    UnbalancedPop,
}

/// Individually well-formed statements that are semantically invalid in context.
#[derive(Clone, Copy, Debug, PartialEq, Eq, Structural)]
pub enum ValidationKind {
    /// A pen statement arrived before any coordinate-order declaration.
    MissingCoordinateOrder,
    /// The declared coordinate order has no channels.
    EmptyCoordinateOrder,
    /// The declared coordinate order lacks the X channel.
    MissingXChannel,
    /// The declared coordinate order lacks the Y channel.
    MissingYChannel,
    /// A pen statement's numerals do not fill whole channel groups.
    ShortGroup,
    /// The reconstructed time cursor left the representable range.
    TimeOverflow,
    /// The sample set cannot hold any more coordinates.
    TooManySamples,
    /// A segment names a component index that does not exist.
    NoSuchComponent,
    /// A segment names a component that carries no samples.
    ComponentWithoutSamples,
    /// A segment names a sample offset past the end of its component.
    PointOutOfRange,
    /// A segment range ends before it starts.
    InvertedRange,
    /// A segment's component list is empty, so no bounding box exists.
    EmptySegmentList,
}

/// Every failure the library reports. Each layer returns a result the caller
/// must check; the first error aborts the remaining work for that call.
#[derive(Clone, Copy, Debug, PartialEq, Eq, Structural)]
pub enum UniPenError {
    /// A file could not be read. The library itself never performs I/O;
    /// the surrounding program maps its read failures onto this variant.
    Io,
    /// The input text violates the statement grammar.
    Grammar(GrammarKind),
    /// A numeral token has digit shape but its value does not fit.
    NumeralParse,
    /// A decoded shape is inconsistent with what a keyword's consumer expects.
    Translation(TranslationKind),
    /// Well-formed statements are semantically invalid in context.
    Validation(ValidationKind),
    /// A file-splice directive appeared, but no search directory was supplied.
    MissingInclusionDir,
}

} // verus!
