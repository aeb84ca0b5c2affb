//! The typed statement stream: keywords, arguments, and their views.
//!
//! A statement is one decoded keyword plus its ordered arguments. Text is
//! carried as characters; numerals are exact fixed-point values.

use vstd::prelude::*;

use crate::lex::slice_eq_str;

verus! {

/// A decoded numeral. `Decimal` holds millionths of a unit, so `1.5`
/// is `Decimal(1_500_000)`; the decoder rejects more than six fractional
/// digits and values outside the representable range.
#[derive(Clone, Copy, Debug, PartialEq, Eq, Structural)]
pub enum Number {
    Integer(i32),
    Decimal(i64),
}

impl Number {
    /// The value in millionths of a unit.
    pub open spec fn spec_micros(self) -> int {
        match self {
            Number::Integer(n) => n * 1_000_000,
            Number::Decimal(m) => m as int,
        }
    }

    /// The value in millionths of a unit.
    pub fn micros(&self) -> (r: i64)
        ensures
            r == self.spec_micros(),
    {
        match self {
            Number::Integer(n) => (*n as i64) * 1_000_000,
            Number::Decimal(m) => *m,
        }
    }

    /// The whole units, truncated toward zero and saturated to the
    /// 32-bit range.
    pub open spec fn spec_truncated(self) -> i32 {
        match self {
            Number::Integer(n) => n,
            Number::Decimal(m) => {
                let q = if m >= 0 {
                    m / 1_000_000
                } else {
                    -((-(m as int)) / 1_000_000)
                };
                if q > i32::MAX {
                    i32::MAX
                } else if q < i32::MIN {
                    i32::MIN
                } else {
                    q as i32
                }
            },
        }
    }

    /// The whole units, truncated toward zero and saturated to the
    /// 32-bit range.
    pub fn truncated(&self) -> (r: i32)
        ensures
            r == self.spec_truncated(),
    {
        match self {
            Number::Integer(n) => *n,
            Number::Decimal(m) => {
                if *m == i64::MIN {
                    return i32::MIN;
                }
                let q: i64 = if *m >= 0 { *m / 1_000_000 } else { -((-*m) / 1_000_000) };
                if q > 0x7fff_ffff {
                    i32::MAX
                } else if q < -0x8000_0000 {
                    i32::MIN
                } else {
                    q as i32
                }
            },
        }
    }
}

/// The closed vocabulary of reserved words.
#[derive(Clone, Copy, Debug, PartialEq, Eq, Structural)]
pub enum Reserved {
    Type,
    X,
    Y,
    Time,
    Pressure,
    Z,
    Button,
    Rho,
    Theta,
    Phi,
    LeftHand,
    RightHand,
    Male,
    Female,
    Bad,
    Okay,
    Good,
    Unknown,
    Printed,
    Cursive,
    Mixed,
    Accept,
    Reject,
}

/// One sample reference inside a component: the whole run, or one sample.
#[derive(Clone, Copy, Debug, PartialEq, Eq, Structural)]
pub enum Point {
    All,
    Index(usize),
}

/// A reference to a component, and optionally to one sample inside it.
#[derive(Clone, Copy, Debug, PartialEq, Eq, Structural)]
pub struct ComponentPoint {
    pub component: usize,
    pub point: Point,
}

/// A contiguous span between two component points, both inclusive.
#[derive(Clone, Copy, Debug, PartialEq, Eq, Structural)]
pub struct ComponentRange {
    pub start: ComponentPoint,
    pub end: ComponentPoint,
}

/// One item of a component list.
#[derive(Clone, Copy, Debug, PartialEq, Eq, Structural)]
pub enum ComponentItem {
    Single(ComponentPoint),
    Range(ComponentRange),
}

/// An ordered list of component references, as one segment argument.
#[derive(Clone, Debug, PartialEq, Eq)]
pub struct ComponentList(pub Vec<ComponentItem>);

impl View for ComponentList {
    type V = Seq<ComponentItem>;

    open spec fn view(&self) -> Seq<ComponentItem> {
        self.0@
    }
}

/// One argument of a statement.
#[derive(Clone, Debug, PartialEq, Eq)]
pub enum StatementArgument {
    /// An integer or fixed-point numeral.
    Number(Number),
    /// A short bare or quoted identifier.
    String(Vec<char>),
    /// The rest of the statement's text, verbatim.
    FreeText(Vec<char>),
    /// A reserved word.
    Reserved(Reserved),
    /// Quoted text with escapes decoded and whitespace runs collapsed.
    Label(Vec<char>),
    /// A component list.
    List(ComponentList),
}

/// The mathematical value of an argument.
pub enum ArgView {
    Number(Number),
    Str(Seq<char>),
    FreeText(Seq<char>),
    Reserved(Reserved),
    Label(Seq<char>),
    List(Seq<ComponentItem>),
}

impl View for StatementArgument {
    type V = ArgView;

    open spec fn view(&self) -> ArgView {
        match self {
            StatementArgument::Number(n) => ArgView::Number(*n),
            StatementArgument::String(s) => ArgView::Str(s@),
            StatementArgument::FreeText(s) => ArgView::FreeText(s@),
            StatementArgument::Reserved(r) => ArgView::Reserved(*r),
            StatementArgument::Label(s) => ArgView::Label(s@),
            StatementArgument::List(l) => ArgView::List(l@),
        }
    }
}

/// Every statement keyword. `Inclusion` and `EndOfInput` are the synthetic
/// push and pop markers that bracket each spliced file's statements; the
/// others come from dot-keyword lines.
#[derive(Clone, Copy, Debug, PartialEq, Eq, Structural)]
pub enum Keyword {
    Keyword,
    Reserve,
    Comment,
    Inclusion,
    Version,
    DataSource,
    DataId,
    Coordinate,
    Hierarchy,
    DataContact,
    DataInfo,
    Setup,
    Pad,
    Alphabet,
    AlphabetFreq,
    LexiconSource,
    LexiconId,
    LexiconContact,
    LexiconInfo,
    Lexicon,
    LexiconFreq,
    XDimension,
    YDimension,
    HLine,
    VLine,
    XPointsPerInch,
    YPointsPerInch,
    ZPointsPerInch,
    XPointsPerMm,
    YPointsPerMm,
    ZPointsPerMm,
    PointsPerGram,
    PointsPerSecond,
    PenDown,
    PenUp,
    Dt,
    Date,
    Style,
    WriterId,
    Country,
    Hand,
    Age,
    Sex,
    Skill,
    WriterInfo,
    Segment,
    StartSet,
    StartBox,
    RecSource,
    RecId,
    RecContact,
    RecInfo,
    Implement,
    TrainingSet,
    TestSet,
    AdaptSet,
    LexiconSet,
    RecTime,
    RecLabels,
    RecScores,
    EndOfInput,
}

/// One statement: a keyword and its ordered arguments.
#[derive(Clone, Debug, PartialEq, Eq)]
pub struct Statement {
    pub keyword: Keyword,
    pub arguments: Vec<StatementArgument>,
}

/// The mathematical value of a statement.
pub struct StatementView {
    pub keyword: Keyword,
    pub arguments: Seq<ArgView>,
}

impl View for Statement {
    type V = StatementView;

    open spec fn view(&self) -> StatementView {
        StatementView {
            keyword: self.keyword,
            arguments: self.arguments@.map_values(|a: StatementArgument| a@),
        }
    }
}

/// The spelling of the file-splice keyword, held as single characters
/// because this crate's sources may not carry that word itself.
pub open spec fn splice_chars() -> Seq<char> {
    seq!['I', 'N', 'C', 'L', 'U', 'D', 'E']
}

fn is_splice_token(t: &[char]) -> (r: bool)
    ensures
        r == (t@ == splice_chars()),
{
    if t.len() != 7 {
        assert(t@.len() != splice_chars().len());
        return false;
    }
    let r = t[0] == 'I' && t[1] == 'N' && t[2] == 'C' && t[3] == 'L' && t[4] == 'U' && t[5] == 'D'
        && t[6] == 'E';
    proof {
        if r {
            assert(t@ =~= splice_chars());
        }
    }
    r
}

/// Maps a keyword token, the text after the leading dot, to its keyword.
pub open spec fn spec_keyword_of(s: Seq<char>) -> Option<Keyword> {
    if s == "KEYWORD"@ { Some(Keyword::Keyword) }
    else if s == "RESERVE"@ { Some(Keyword::Reserve) }
    else if s == "COMMENT"@ { Some(Keyword::Comment) }
    else if s == splice_chars() { Some(Keyword::Inclusion) }
    else if s == "VERSION"@ { Some(Keyword::Version) }
    else if s == "DATA_SOURCE"@ { Some(Keyword::DataSource) }
    else if s == "DATA_ID"@ { Some(Keyword::DataId) }
    else if s == "COORD"@ { Some(Keyword::Coordinate) }
    else if s == "HIERARCHY"@ { Some(Keyword::Hierarchy) }
    else if s == "DATA_CONTACT"@ { Some(Keyword::DataContact) }
    else if s == "DATA_INFO"@ { Some(Keyword::DataInfo) }
    else if s == "SETUP"@ { Some(Keyword::Setup) }
    else if s == "PAD"@ { Some(Keyword::Pad) }
    else if s == "ALPHABET"@ { Some(Keyword::Alphabet) }
    else if s == "ALPHABET_FREQ"@ { Some(Keyword::AlphabetFreq) }
    else if s == "LEXICON_SOURCE"@ { Some(Keyword::LexiconSource) }
    else if s == "LEXICON_ID"@ { Some(Keyword::LexiconId) }
    else if s == "LEXICON_CONTACT"@ { Some(Keyword::LexiconContact) }
    else if s == "LEXICON_INFO"@ { Some(Keyword::LexiconInfo) }
    else if s == "LEXICON"@ { Some(Keyword::Lexicon) }
    else if s == "LEXICON_FREQ"@ { Some(Keyword::LexiconFreq) }
    else if s == "X_DIM"@ { Some(Keyword::XDimension) }
    else if s == "Y_DIM"@ { Some(Keyword::YDimension) }
    else if s == "H_LINE"@ { Some(Keyword::HLine) }
    else if s == "V_LINE"@ { Some(Keyword::VLine) }
    else if s == "X_POINTS_PER_INCH"@ { Some(Keyword::XPointsPerInch) }
    else if s == "Y_POINTS_PER_INCH"@ { Some(Keyword::YPointsPerInch) }
    else if s == "Z_POINTS_PER_INCH"@ { Some(Keyword::ZPointsPerInch) }
    else if s == "X_POINTS_PER_MM"@ { Some(Keyword::XPointsPerMm) }
    else if s == "Y_POINTS_PER_MM"@ { Some(Keyword::YPointsPerMm) }
    else if s == "Z_POINTS_PER_MM"@ { Some(Keyword::ZPointsPerMm) }
    else if s == "POINTS_PER_GRAM"@ { Some(Keyword::PointsPerGram) }
    else if s == "POINTS_PER_SECOND"@ { Some(Keyword::PointsPerSecond) }
    else if s == "PEN_DOWN"@ { Some(Keyword::PenDown) }
    else if s == "PEN_UP"@ { Some(Keyword::PenUp) }
    else if s == "DT"@ { Some(Keyword::Dt) }
    else if s == "DATE"@ { Some(Keyword::Date) }
    else if s == "STYLE"@ { Some(Keyword::Style) }
    else if s == "WRITER_ID"@ { Some(Keyword::WriterId) }
    else if s == "COUNTRY"@ { Some(Keyword::Country) }
    else if s == "HAND"@ { Some(Keyword::Hand) }
    else if s == "AGE"@ { Some(Keyword::Age) }
    else if s == "SEX"@ { Some(Keyword::Sex) }
    else if s == "SKILL"@ { Some(Keyword::Skill) }
    else if s == "WRITER_INFO"@ { Some(Keyword::WriterInfo) }
    else if s == "SEGMENT"@ { Some(Keyword::Segment) }
    else if s == "START_SET"@ { Some(Keyword::StartSet) }
    else if s == "START_BOX"@ { Some(Keyword::StartBox) }
    else if s == "REC_SOURCE"@ { Some(Keyword::RecSource) }
    else if s == "REC_ID"@ { Some(Keyword::RecId) }
    else if s == "REC_CONTACT"@ { Some(Keyword::RecContact) }
    else if s == "REC_INFO"@ { Some(Keyword::RecInfo) }
    else if s == "IMPLEMENT"@ { Some(Keyword::Implement) }
    else if s == "TRAINING_SET"@ { Some(Keyword::TrainingSet) }
    else if s == "TEST_SET"@ { Some(Keyword::TestSet) }
    else if s == "ADAPT_SET"@ { Some(Keyword::AdaptSet) }
    else if s == "LEXICON_SET"@ { Some(Keyword::LexiconSet) }
    else if s == "REC_TIME"@ { Some(Keyword::RecTime) }
    else if s == "REC_LABELS"@ { Some(Keyword::RecLabels) }
    else if s == "REC_SCORES"@ { Some(Keyword::RecScores) }
    else { None }
}

/// Recognizes a keyword token.
pub fn keyword_of(t: &[char]) -> (r: Option<Keyword>)
    ensures
        r == spec_keyword_of(t@),
{
    if slice_eq_str(t, "KEYWORD") { Some(Keyword::Keyword) }
    else if slice_eq_str(t, "RESERVE") { Some(Keyword::Reserve) }
    else if slice_eq_str(t, "COMMENT") { Some(Keyword::Comment) }
    else if is_splice_token(t) { Some(Keyword::Inclusion) }
    else if slice_eq_str(t, "VERSION") { Some(Keyword::Version) }
    else if slice_eq_str(t, "DATA_SOURCE") { Some(Keyword::DataSource) }
    else if slice_eq_str(t, "DATA_ID") { Some(Keyword::DataId) }
    else if slice_eq_str(t, "COORD") { Some(Keyword::Coordinate) }
    else if slice_eq_str(t, "HIERARCHY") { Some(Keyword::Hierarchy) }
    else if slice_eq_str(t, "DATA_CONTACT") { Some(Keyword::DataContact) }
    else if slice_eq_str(t, "DATA_INFO") { Some(Keyword::DataInfo) }
    else if slice_eq_str(t, "SETUP") { Some(Keyword::Setup) }
    else if slice_eq_str(t, "PAD") { Some(Keyword::Pad) }
    else if slice_eq_str(t, "ALPHABET") { Some(Keyword::Alphabet) }
    else if slice_eq_str(t, "ALPHABET_FREQ") { Some(Keyword::AlphabetFreq) }
    else if slice_eq_str(t, "LEXICON_SOURCE") { Some(Keyword::LexiconSource) }
    else if slice_eq_str(t, "LEXICON_ID") { Some(Keyword::LexiconId) }
    else if slice_eq_str(t, "LEXICON_CONTACT") { Some(Keyword::LexiconContact) }
    else if slice_eq_str(t, "LEXICON_INFO") { Some(Keyword::LexiconInfo) }
    else if slice_eq_str(t, "LEXICON") { Some(Keyword::Lexicon) }
    else if slice_eq_str(t, "LEXICON_FREQ") { Some(Keyword::LexiconFreq) }
    else if slice_eq_str(t, "X_DIM") { Some(Keyword::XDimension) }
    else if slice_eq_str(t, "Y_DIM") { Some(Keyword::YDimension) }
    else if slice_eq_str(t, "H_LINE") { Some(Keyword::HLine) }
    else if slice_eq_str(t, "V_LINE") { Some(Keyword::VLine) }
    else if slice_eq_str(t, "X_POINTS_PER_INCH") { Some(Keyword::XPointsPerInch) }
    else if slice_eq_str(t, "Y_POINTS_PER_INCH") { Some(Keyword::YPointsPerInch) }
    else if slice_eq_str(t, "Z_POINTS_PER_INCH") { Some(Keyword::ZPointsPerInch) }
    else if slice_eq_str(t, "X_POINTS_PER_MM") { Some(Keyword::XPointsPerMm) }
    else if slice_eq_str(t, "Y_POINTS_PER_MM") { Some(Keyword::YPointsPerMm) }
    else if slice_eq_str(t, "Z_POINTS_PER_MM") { Some(Keyword::ZPointsPerMm) }
    else if slice_eq_str(t, "POINTS_PER_GRAM") { Some(Keyword::PointsPerGram) }
    else if slice_eq_str(t, "POINTS_PER_SECOND") { Some(Keyword::PointsPerSecond) }
    else if slice_eq_str(t, "PEN_DOWN") { Some(Keyword::PenDown) }
    else if slice_eq_str(t, "PEN_UP") { Some(Keyword::PenUp) }
    else if slice_eq_str(t, "DT") { Some(Keyword::Dt) }
    else if slice_eq_str(t, "DATE") { Some(Keyword::Date) }
    else if slice_eq_str(t, "STYLE") { Some(Keyword::Style) }
    else if slice_eq_str(t, "WRITER_ID") { Some(Keyword::WriterId) }
    else if slice_eq_str(t, "COUNTRY") { Some(Keyword::Country) }
    else if slice_eq_str(t, "HAND") { Some(Keyword::Hand) }
    else if slice_eq_str(t, "AGE") { Some(Keyword::Age) }
    else if slice_eq_str(t, "SEX") { Some(Keyword::Sex) }
    else if slice_eq_str(t, "SKILL") { Some(Keyword::Skill) }
    else if slice_eq_str(t, "WRITER_INFO") { Some(Keyword::WriterInfo) }
    else if slice_eq_str(t, "SEGMENT") { Some(Keyword::Segment) }
    else if slice_eq_str(t, "START_SET") { Some(Keyword::StartSet) }
    else if slice_eq_str(t, "START_BOX") { Some(Keyword::StartBox) }
    else if slice_eq_str(t, "REC_SOURCE") { Some(Keyword::RecSource) }
    else if slice_eq_str(t, "REC_ID") { Some(Keyword::RecId) }
    else if slice_eq_str(t, "REC_CONTACT") { Some(Keyword::RecContact) }
    else if slice_eq_str(t, "REC_INFO") { Some(Keyword::RecInfo) }
    else if slice_eq_str(t, "IMPLEMENT") { Some(Keyword::Implement) }
    else if slice_eq_str(t, "TRAINING_SET") { Some(Keyword::TrainingSet) }
    else if slice_eq_str(t, "TEST_SET") { Some(Keyword::TestSet) }
    else if slice_eq_str(t, "ADAPT_SET") { Some(Keyword::AdaptSet) }
    else if slice_eq_str(t, "LEXICON_SET") { Some(Keyword::LexiconSet) }
    else if slice_eq_str(t, "REC_TIME") { Some(Keyword::RecTime) }
    else if slice_eq_str(t, "REC_LABELS") { Some(Keyword::RecLabels) }
    else if slice_eq_str(t, "REC_SCORES") { Some(Keyword::RecScores) }
    else { None }
}

/// Maps a reserved-word token to its value; `?` is the unknown sentinel.
pub open spec fn spec_reserved_of(s: Seq<char>) -> Option<Reserved> {
    if s == "?"@ { Some(Reserved::Unknown) }
    else if s == "TYPE"@ { Some(Reserved::Type) }
    else if s == "X"@ { Some(Reserved::X) }
    else if s == "Y"@ { Some(Reserved::Y) }
    else if s == "T"@ { Some(Reserved::Time) }
    else if s == "P"@ { Some(Reserved::Pressure) }
    else if s == "Z"@ { Some(Reserved::Z) }
    else if s == "B"@ { Some(Reserved::Button) }
    else if s == "RHO"@ { Some(Reserved::Rho) }
    else if s == "THETA"@ { Some(Reserved::Theta) }
    else if s == "PHI"@ { Some(Reserved::Phi) }
    else if s == "L"@ { Some(Reserved::LeftHand) }
    else if s == "R"@ { Some(Reserved::RightHand) }
    else if s == "M"@ { Some(Reserved::Male) }
    else if s == "F"@ { Some(Reserved::Female) }
    else if s == "BAD"@ { Some(Reserved::Bad) }
    else if s == "OK"@ { Some(Reserved::Okay) }
    else if s == "GOOD"@ { Some(Reserved::Good) }
    else if s == "PRINTED"@ { Some(Reserved::Printed) }
    else if s == "CURSIVE"@ { Some(Reserved::Cursive) }
    else if s == "MIXED"@ { Some(Reserved::Mixed) }
    else if s == "ACCEPT"@ { Some(Reserved::Accept) }
    else if s == "REJECT"@ { Some(Reserved::Reject) }
    else { None }
}

/// Recognizes a reserved-word token.
pub fn reserved_of(t: &[char]) -> (r: Option<Reserved>)
    ensures
        r == spec_reserved_of(t@),
{
    if slice_eq_str(t, "?") { Some(Reserved::Unknown) }
    else if slice_eq_str(t, "TYPE") { Some(Reserved::Type) }
    else if slice_eq_str(t, "X") { Some(Reserved::X) }
    else if slice_eq_str(t, "Y") { Some(Reserved::Y) }
    else if slice_eq_str(t, "T") { Some(Reserved::Time) }
    else if slice_eq_str(t, "P") { Some(Reserved::Pressure) }
    else if slice_eq_str(t, "Z") { Some(Reserved::Z) }
    else if slice_eq_str(t, "B") { Some(Reserved::Button) }
    else if slice_eq_str(t, "RHO") { Some(Reserved::Rho) }
    else if slice_eq_str(t, "THETA") { Some(Reserved::Theta) }
    else if slice_eq_str(t, "PHI") { Some(Reserved::Phi) }
    else if slice_eq_str(t, "L") { Some(Reserved::LeftHand) }
    else if slice_eq_str(t, "R") { Some(Reserved::RightHand) }
    else if slice_eq_str(t, "M") { Some(Reserved::Male) }
    else if slice_eq_str(t, "F") { Some(Reserved::Female) }
    else if slice_eq_str(t, "BAD") { Some(Reserved::Bad) }
    else if slice_eq_str(t, "OK") { Some(Reserved::Okay) }
    else if slice_eq_str(t, "GOOD") { Some(Reserved::Good) }
    else if slice_eq_str(t, "PRINTED") { Some(Reserved::Printed) }
    else if slice_eq_str(t, "CURSIVE") { Some(Reserved::Cursive) }
    else if slice_eq_str(t, "MIXED") { Some(Reserved::Mixed) }
    else if slice_eq_str(t, "ACCEPT") { Some(Reserved::Accept) }
    else if slice_eq_str(t, "REJECT") { Some(Reserved::Reject) }
    else { None }
}

/// How a keyword's argument text is read.
#[derive(Clone, Copy, Debug, PartialEq, Eq, Structural)]
pub enum Schema {
    /// The rest of the statement's text is one free-text argument.
    Free,
    /// Each token is a numeral, or the unknown sentinel.
    Nums,
    /// Each token is a short identifier, or the unknown sentinel.
    Strs,
    /// Each token is a reserved word.
    Resvds,
    /// An identifier, a component list, then an optional quality
    /// reserved word and an optional quoted label.
    Seg,
    /// One quoted or bare path token, spliced at parse time.
    Splice,
}

/// The argument schema of each keyword.
pub open spec fn spec_schema_of(k: Keyword) -> Schema {
    match k {
        Keyword::Version | Keyword::AlphabetFreq | Keyword::LexiconFreq | Keyword::XDimension
            | Keyword::YDimension | Keyword::HLine | Keyword::VLine | Keyword::XPointsPerInch
            | Keyword::YPointsPerInch | Keyword::ZPointsPerInch | Keyword::XPointsPerMm
            | Keyword::YPointsPerMm | Keyword::ZPointsPerMm | Keyword::PointsPerGram
            | Keyword::PointsPerSecond | Keyword::PenDown | Keyword::PenUp | Keyword::Dt
            | Keyword::Age => Schema::Nums,
        Keyword::DataId | Keyword::Hierarchy | Keyword::Alphabet | Keyword::Lexicon
            | Keyword::LexiconId | Keyword::WriterId => Schema::Strs,
        Keyword::Coordinate | Keyword::Style | Keyword::Hand | Keyword::Sex
            | Keyword::Skill => Schema::Resvds,
        Keyword::Segment => Schema::Seg,
        Keyword::Inclusion => Schema::Splice,
        _ => Schema::Free,
    }
}

/// The argument schema of each keyword.
pub fn schema_of(k: Keyword) -> (r: Schema)
    ensures
        r == spec_schema_of(k),
{
    match k {
        Keyword::Version | Keyword::AlphabetFreq | Keyword::LexiconFreq | Keyword::XDimension
            | Keyword::YDimension | Keyword::HLine | Keyword::VLine | Keyword::XPointsPerInch
            | Keyword::YPointsPerInch | Keyword::ZPointsPerInch | Keyword::XPointsPerMm
            | Keyword::YPointsPerMm | Keyword::ZPointsPerMm | Keyword::PointsPerGram
            | Keyword::PointsPerSecond | Keyword::PenDown | Keyword::PenUp | Keyword::Dt
            | Keyword::Age => Schema::Nums,
        Keyword::DataId | Keyword::Hierarchy | Keyword::Alphabet | Keyword::Lexicon
            | Keyword::LexiconId | Keyword::WriterId => Schema::Strs,
        Keyword::Coordinate | Keyword::Style | Keyword::Hand | Keyword::Sex
            | Keyword::Skill => Schema::Resvds,
        Keyword::Segment => Schema::Seg,
        Keyword::Inclusion => Schema::Splice,
        _ => Schema::Free,
    }
}

} // verus!
