//! Folds the flat statement stream, left to right, into the document.
//!
//! The builder owns the metadata, a stack of active file names, the time
//! cursor, and the sample-set builders. Pen statements are decoded through
//! the declared coordinate order; when `Time` is not a declared channel,
//! sample times come from the cursor, which the points-per-second scale
//! and timing-gap statements advance, and which returns to zero whenever a
//! splice push retires the active sample set and begins a new one — so a
//! coordinate's time is always time since its own sample set began. An
//! explicit `Time` channel always wins over cursor reconstruction.

use vstd::prelude::*;

use crate::component_set::{
    spec_build, ComponentSetBuilder, ComponentSetBuilderView,
};
use crate::error::{TranslationKind, UniPenError, ValidationKind};
use crate::lex::{copy_chars, copy_vec};
use crate::model::{
    ComponentSet, ComponentSetView, CoordinateType, Hand, Metadata, MetadataView, Sex, Skill,
    Style, UniPen, UniPenView, Coordinate, Quality,
};
use crate::statements::{
    ArgView, ComponentList, Keyword, Number, Reserved, Statement, StatementArgument,
    StatementView,
};

verus! {

/// Builds a document from a statement stream.
pub struct UniPenBuilder {
    file_stack: Vec<Vec<char>>,
    current_time: i64,
    current: ComponentSetBuilder,
    done: Vec<ComponentSetBuilder>,
    meta: Metadata,
}

/// The mathematical value of a document builder.
pub struct UniPenBuilderView {
    pub file_stack: Seq<Seq<char>>,
    pub current_time: i64,
    pub current: ComponentSetBuilderView,
    pub done: Seq<ComponentSetBuilderView>,
    pub meta: MetadataView,
}

impl View for UniPenBuilder {
    type V = UniPenBuilderView;

    closed spec fn view(&self) -> UniPenBuilderView {
        UniPenBuilderView {
            file_stack: self.file_stack@.map_values(|f: Vec<char>| f@),
            current_time: self.current_time,
            current: self.current@,
            done: self.done@.map_values(|c: ComponentSetBuilder| c@),
            meta: self.meta@,
        }
    }
}

impl UniPenBuilderView {
    /// Well-formedness: every sample-set builder keeps its runs inside its
    /// coordinates, and the time cursor never runs backward past zero.
    pub open spec fn wf(self) -> bool {
        &&& self.current.wf()
        &&& forall|i: int| 0 <= i < self.done.len() ==> (#[trigger] self.done[i]).wf()
        &&& self.current_time >= 0
    }

    /// The view of a fresh builder.
    pub open spec fn spec_new() -> UniPenBuilderView {
        UniPenBuilderView {
            file_stack: Seq::empty(),
            current_time: 0,
            current: ComponentSetBuilderView::spec_empty(),
            done: Seq::empty(),
            meta: Metadata::spec_unset(),
        }
    }
}

/// The first argument, which the statement must have.
pub open spec fn first_arg(args: Seq<ArgView>) -> Result<ArgView, UniPenError> {
    if args.len() == 0 {
        Err(UniPenError::Translation(TranslationKind::MissingArgument))
    } else {
        Ok(args[0])
    }
}

/// A single free-text field update: the unknown sentinel resets the field.
pub open spec fn upd_free(args: Seq<ArgView>) -> Result<Option<Seq<char>>, UniPenError> {
    match first_arg(args) {
        Ok(a) => match a {
            ArgView::Reserved(Reserved::Unknown) => Ok(None),
            ArgView::FreeText(s) => Ok(Some(s)),
            _ => Err(UniPenError::Translation(TranslationKind::ArgumentShape)),
        },
        Err(e) => Err(e),
    }
}

/// A single identifier field update.
pub open spec fn upd_str(args: Seq<ArgView>) -> Result<Option<Seq<char>>, UniPenError> {
    match first_arg(args) {
        Ok(a) => match a {
            ArgView::Reserved(Reserved::Unknown) => Ok(None),
            ArgView::Str(s) => Ok(Some(s)),
            _ => Err(UniPenError::Translation(TranslationKind::ArgumentShape)),
        },
        Err(e) => Err(e),
    }
}

/// A single fixed-point numeric field update, in millionths.
pub open spec fn upd_micros(args: Seq<ArgView>) -> Result<Option<i64>, UniPenError> {
    match first_arg(args) {
        Ok(a) => match a {
            ArgView::Reserved(Reserved::Unknown) => Ok(None),
            ArgView::Number(n) => Ok(Some(n.spec_micros() as i64)),
            _ => Err(UniPenError::Translation(TranslationKind::ArgumentShape)),
        },
        Err(e) => Err(e),
    }
}

/// A single whole-number field update, truncated toward zero.
pub open spec fn upd_int(args: Seq<ArgView>) -> Result<Option<i32>, UniPenError> {
    match first_arg(args) {
        Ok(a) => match a {
            ArgView::Reserved(Reserved::Unknown) => Ok(None),
            ArgView::Number(n) => Ok(Some(n.spec_truncated())),
            _ => Err(UniPenError::Translation(TranslationKind::ArgumentShape)),
        },
        Err(e) => Err(e),
    }
}

/// A single reserved-word field update; the word itself is returned so
/// each field interprets it through its own vocabulary.
pub open spec fn upd_reserved(args: Seq<ArgView>) -> Result<Option<Reserved>, UniPenError> {
    match first_arg(args) {
        Ok(a) => match a {
            ArgView::Reserved(Reserved::Unknown) => Ok(None),
            ArgView::Reserved(r) => Ok(Some(r)),
            _ => Err(UniPenError::Translation(TranslationKind::ArgumentShape)),
        },
        Err(e) => Err(e),
    }
}

/// Whether a sole unknown sentinel resets a list-valued field.
pub open spec fn sole_unknown(args: Seq<ArgView>) -> bool {
    args.len() == 1 && args[0] == ArgView::Reserved(Reserved::Unknown)
}

/// The texts of a homogeneous identifier list.
pub open spec fn texts_of(args: Seq<ArgView>) -> Result<Seq<Seq<char>>, UniPenError>
    decreases args.len(),
{
    if args.len() == 0 {
        Ok(Seq::empty())
    } else {
        match args.first() {
            ArgView::Str(s) => match texts_of(args.drop_first()) {
                Ok(rest) => Ok(seq![s] + rest),
                Err(e) => Err(e),
            },
            _ => Err(UniPenError::Translation(TranslationKind::ArgumentShape)),
        }
    }
}

/// The values of a homogeneous numeral list, truncated toward zero.
pub open spec fn ints_of(args: Seq<ArgView>) -> Result<Seq<i32>, UniPenError>
    decreases args.len(),
{
    if args.len() == 0 {
        Ok(Seq::empty())
    } else {
        match args.first() {
            ArgView::Number(n) => match ints_of(args.drop_first()) {
                Ok(rest) => Ok(seq![n.spec_truncated()] + rest),
                Err(e) => Err(e),
            },
            _ => Err(UniPenError::Translation(TranslationKind::ArgumentShape)),
        }
    }
}

/// The channels of a coordinate-order declaration.
pub open spec fn coords_of(args: Seq<ArgView>) -> Result<Seq<CoordinateType>, UniPenError>
    decreases args.len(),
{
    if args.len() == 0 {
        Ok(Seq::empty())
    } else {
        match args.first() {
            ArgView::Reserved(r) => match CoordinateType::spec_try_from(r) {
                Ok(c) => match coords_of(args.drop_first()) {
                    Ok(rest) => Ok(seq![c] + rest),
                    Err(e) => Err(e),
                },
                Err(e) => Err(e),
            },
            _ => Err(UniPenError::Translation(TranslationKind::ArgumentShape)),
        }
    }
}

/// The values of a pen statement's numerals, in millionths.
pub open spec fn micros_of(args: Seq<ArgView>) -> Result<Seq<i64>, UniPenError>
    decreases args.len(),
{
    if args.len() == 0 {
        Ok(Seq::empty())
    } else {
        match args.first() {
            ArgView::Number(n) => match micros_of(args.drop_first()) {
                Ok(rest) => Ok(seq![n.spec_micros() as i64] + rest),
                Err(e) => Err(e),
            },
            _ => Err(UniPenError::Translation(TranslationKind::ArgumentShape)),
        }
    }
}

/// The value a channel takes within one group: the last position of that
/// channel in the declared order wins.
pub open spec fn chan(order: Seq<CoordinateType>, g: Seq<i64>, c: CoordinateType) -> Option<i64>
    decreases order.len(),
{
    if order.len() == 0 || g.len() == 0 {
        None
    } else if order.last() == c {
        Some(g.last())
    } else {
        chan(order.drop_last(), g.drop_last(), c)
    }
}

/// A declared channel always yields a value from a full group.
pub proof fn lemma_chan_present(order: Seq<CoordinateType>, g: Seq<i64>, c: CoordinateType)
    requires
        order.len() == g.len(),
        order.contains(c),
    ensures
        chan(order, g, c) is Some,
    decreases order.len(),
{
    if order.len() > 0 && order.last() != c {
        assert(order.drop_last().contains(c)) by {
            let i = choose|i: int| 0 <= i < order.len() && order[i] == c;
            assert(order.drop_last()[i] == c);
        }
        lemma_chan_present(order.drop_last(), g.drop_last(), c);
    }
}

pub open spec fn chan_or(order: Seq<CoordinateType>, g: Seq<i64>, c: CoordinateType, d: i64) -> i64 {
    match chan(order, g, c) {
        Some(v) => v,
        None => d,
    }
}

/// The coordinate one full numeral group decodes to, with `t` the cursor
/// time used when `Time` is not a declared channel.
pub open spec fn group_coord(order: Seq<CoordinateType>, g: Seq<i64>, t: i64) -> Coordinate {
    Coordinate {
        x_position: chan_or(order, g, CoordinateType::XPosition, 0),
        y_position: chan_or(order, g, CoordinateType::YPosition, 0),
        time: chan_or(order, g, CoordinateType::Time, t),
        pressure: chan(order, g, CoordinateType::Pressure),
        z_position: chan(order, g, CoordinateType::ZPosition),
        button: chan(order, g, CoordinateType::Button),
        rho: chan(order, g, CoordinateType::Rho),
        theta: chan(order, g, CoordinateType::Theta),
        phi: chan(order, g, CoordinateType::Phi),
    }
}

/// The coordinates of the first `g` numeral groups, the `k`-th at cursor
/// time `base + k * inc`.
pub open spec fn groups_coords(
    order: Seq<CoordinateType>,
    nums: Seq<i64>,
    base: int,
    inc: int,
    g: int,
) -> Seq<Coordinate>
    decreases g,
{
    if g <= 0 {
        Seq::empty()
    } else {
        groups_coords(order, nums, base, inc, g - 1).push(
            group_coord(
                order,
                nums.subrange((g - 1) * order.len(), g * order.len() as int),
                (base + (g - 1) * inc) as i64,
            ),
        )
    }
}

/// The cursor step between samples: the reciprocal of the declared
/// points-per-second scale, in millionths of a second, or zero.
pub open spec fn cursor_inc(pps: Option<i64>) -> int {
    match pps {
        Some(p) => if p > 0 {
            1_000_000_000_000int / (p as int)
        } else {
            0
        },
        None => 0,
    }
}

/// The exact effect of a pen statement on the builder.
pub open spec fn spec_pen_statement(b: UniPenBuilderView, args: Seq<ArgView>, down: bool) -> Result<
    UniPenBuilderView,
    UniPenError,
> {
    match b.meta.coordinate_order {
        None => Err(UniPenError::Validation(ValidationKind::MissingCoordinateOrder)),
        Some(order) => match micros_of(args) {
            Err(e) => Err(e),
            Ok(nums) => {
                if nums.len() == 0 {
                    Ok(b)
                } else if order.len() == 0 {
                    Err(UniPenError::Validation(ValidationKind::EmptyCoordinateOrder))
                } else if nums.len() % order.len() != 0 {
                    Err(UniPenError::Validation(ValidationKind::ShortGroup))
                } else if !order.contains(CoordinateType::XPosition) {
                    Err(UniPenError::Validation(ValidationKind::MissingXChannel))
                } else if !order.contains(CoordinateType::YPosition) {
                    Err(UniPenError::Validation(ValidationKind::MissingYChannel))
                } else {
                    let has_t = order.contains(CoordinateType::Time);
                    let inc = if has_t {
                        0
                    } else {
                        cursor_inc(b.meta.points_per_second)
                    };
                    let g = nums.len() as int / order.len() as int;
                    if !has_t && b.current_time + g * inc > i64::MAX {
                        Err(UniPenError::Validation(ValidationKind::TimeOverflow))
                    } else if b.current.coordinates.len() + g > usize::MAX {
                        Err(UniPenError::Validation(ValidationKind::TooManySamples))
                    } else {
                        let coords = groups_coords(order, nums, b.current_time as int, inc, g);
                        Ok(UniPenBuilderView {
                            current: b.current.spec_pen(coords, down),
                            current_time: if has_t {
                                b.current_time
                            } else {
                                (b.current_time + g * inc) as i64
                            },
                            ..b
                        })
                    }
                }
            },
        },
    }
}

/// The keywords that set a single text field.
pub open spec fn text_kw(k: Keyword) -> bool {
    k == Keyword::DataSource
        || k == Keyword::DataId
        || k == Keyword::DataContact
        || k == Keyword::DataInfo
        || k == Keyword::Setup
        || k == Keyword::Pad
        || k == Keyword::LexiconSource
        || k == Keyword::LexiconId
        || k == Keyword::LexiconContact
        || k == Keyword::LexiconInfo
        || k == Keyword::WriterId
        || k == Keyword::Country
        || k == Keyword::WriterInfo
}

/// The keywords that set a single numeric field.
pub open spec fn num_kw(k: Keyword) -> bool {
    k == Keyword::Version
        || k == Keyword::XDimension
        || k == Keyword::YDimension
        || k == Keyword::XPointsPerInch
        || k == Keyword::YPointsPerInch
        || k == Keyword::ZPointsPerInch
        || k == Keyword::XPointsPerMm
        || k == Keyword::YPointsPerMm
        || k == Keyword::ZPointsPerMm
        || k == Keyword::PointsPerGram
        || k == Keyword::PointsPerSecond
        || k == Keyword::Age
}

/// The keywords that set a list or vocabulary field.
pub open spec fn list_kw(k: Keyword) -> bool {
    k == Keyword::Coordinate
        || k == Keyword::Hierarchy
        || k == Keyword::Alphabet
        || k == Keyword::AlphabetFreq
        || k == Keyword::Lexicon
        || k == Keyword::LexiconFreq
        || k == Keyword::HLine
        || k == Keyword::VLine
        || k == Keyword::Style
        || k == Keyword::Hand
        || k == Keyword::Sex
        || k == Keyword::Skill
}

/// The keywords whose handling goes beyond a metadata field.
pub open spec fn special_kw(k: Keyword) -> bool {
    k == Keyword::Inclusion || k == Keyword::EndOfInput || k == Keyword::PenDown
        || k == Keyword::PenUp || k == Keyword::Dt || k == Keyword::Segment
}

/// The effect of a single-text-field statement.
pub open spec fn spec_text_step(b: UniPenBuilderView, s: StatementView) -> Result<
    UniPenBuilderView,
    UniPenError,
> {
    let args = s.arguments;
    match s.keyword {
        Keyword::DataSource => match upd_free(args) {
            Ok(v) => Ok(UniPenBuilderView { meta: MetadataView { data_source: v, ..b.meta }, ..b }),
            Err(e) => Err(e),
        },
        Keyword::DataId => match upd_str(args) {
            Ok(v) => Ok(UniPenBuilderView { meta: MetadataView { data_id: v, ..b.meta }, ..b }),
            Err(e) => Err(e),
        },
        Keyword::DataContact => match upd_free(args) {
            Ok(v) => Ok(UniPenBuilderView { meta: MetadataView { data_contact: v, ..b.meta }, ..b }),
            Err(e) => Err(e),
        },
        Keyword::DataInfo => match upd_free(args) {
            Ok(v) => Ok(UniPenBuilderView { meta: MetadataView { data_info: v, ..b.meta }, ..b }),
            Err(e) => Err(e),
        },
        Keyword::Setup => match upd_free(args) {
            Ok(v) => Ok(UniPenBuilderView { meta: MetadataView { setup: v, ..b.meta }, ..b }),
            Err(e) => Err(e),
        },
        Keyword::Pad => match upd_free(args) {
            Ok(v) => Ok(UniPenBuilderView { meta: MetadataView { pad: v, ..b.meta }, ..b }),
            Err(e) => Err(e),
        },
        Keyword::LexiconSource => match upd_free(args) {
            Ok(v) => Ok(UniPenBuilderView {
                meta: MetadataView { lexicon_source: v, ..b.meta },
                ..b
            }),
            Err(e) => Err(e),
        },
        Keyword::LexiconId => match upd_str(args) {
            Ok(v) => Ok(UniPenBuilderView { meta: MetadataView { lexicon_id: v, ..b.meta }, ..b }),
            Err(e) => Err(e),
        },
        Keyword::LexiconContact => match upd_free(args) {
            Ok(v) => Ok(UniPenBuilderView {
                meta: MetadataView { lexicon_contact: v, ..b.meta },
                ..b
            }),
            Err(e) => Err(e),
        },
        Keyword::LexiconInfo => match upd_free(args) {
            Ok(v) => Ok(UniPenBuilderView {
                meta: MetadataView { lexicon_info: v, ..b.meta },
                ..b
            }),
            Err(e) => Err(e),
        },
        Keyword::WriterId => match upd_str(args) {
            Ok(v) => Ok(UniPenBuilderView { meta: MetadataView { writer_id: v, ..b.meta }, ..b }),
            Err(e) => Err(e),
        },
        Keyword::Country => match upd_free(args) {
            Ok(v) => Ok(UniPenBuilderView { meta: MetadataView { country: v, ..b.meta }, ..b }),
            Err(e) => Err(e),
        },
        Keyword::WriterInfo => match upd_free(args) {
            Ok(v) => Ok(UniPenBuilderView { meta: MetadataView { writer_info: v, ..b.meta }, ..b }),
            Err(e) => Err(e),
        },
        _ => Ok(b),
    }
}

/// The effect of a single-number-field statement.
pub open spec fn spec_num_step(b: UniPenBuilderView, s: StatementView) -> Result<
    UniPenBuilderView,
    UniPenError,
> {
    let args = s.arguments;
    match s.keyword {
        Keyword::Version => match upd_micros(args) {
            Ok(v) => Ok(UniPenBuilderView { meta: MetadataView { version: v, ..b.meta }, ..b }),
            Err(e) => Err(e),
        },
        Keyword::XDimension => match upd_int(args) {
            Ok(v) => Ok(UniPenBuilderView { meta: MetadataView { x_dimension: v, ..b.meta }, ..b }),
            Err(e) => Err(e),
        },
        Keyword::YDimension => match upd_int(args) {
            Ok(v) => Ok(UniPenBuilderView { meta: MetadataView { y_dimension: v, ..b.meta }, ..b }),
            Err(e) => Err(e),
        },
        Keyword::XPointsPerInch => match upd_micros(args) {
            Ok(v) => Ok(UniPenBuilderView {
                meta: MetadataView { x_points_per_inch: v, ..b.meta },
                ..b
            }),
            Err(e) => Err(e),
        },
        Keyword::YPointsPerInch => match upd_micros(args) {
            Ok(v) => Ok(UniPenBuilderView {
                meta: MetadataView { y_points_per_inch: v, ..b.meta },
                ..b
            }),
            Err(e) => Err(e),
        },
        Keyword::ZPointsPerInch => match upd_micros(args) {
            Ok(v) => Ok(UniPenBuilderView {
                meta: MetadataView { z_points_per_inch: v, ..b.meta },
                ..b
            }),
            Err(e) => Err(e),
        },
        Keyword::XPointsPerMm => match upd_micros(args) {
            Ok(v) => Ok(UniPenBuilderView {
                meta: MetadataView { x_points_per_mm: v, ..b.meta },
                ..b
            }),
            Err(e) => Err(e),
        },
        Keyword::YPointsPerMm => match upd_micros(args) {
            Ok(v) => Ok(UniPenBuilderView {
                meta: MetadataView { y_points_per_mm: v, ..b.meta },
                ..b
            }),
            Err(e) => Err(e),
        },
        Keyword::ZPointsPerMm => match upd_micros(args) {
            Ok(v) => Ok(UniPenBuilderView {
                meta: MetadataView { z_points_per_mm: v, ..b.meta },
                ..b
            }),
            Err(e) => Err(e),
        },
        Keyword::PointsPerGram => match upd_micros(args) {
            Ok(v) => Ok(UniPenBuilderView {
                meta: MetadataView { points_per_gram: v, ..b.meta },
                ..b
            }),
            Err(e) => Err(e),
        },
        Keyword::PointsPerSecond => match upd_micros(args) {
            Ok(v) => Ok(UniPenBuilderView {
                meta: MetadataView { points_per_second: v, ..b.meta },
                ..b
            }),
            Err(e) => Err(e),
        },
        Keyword::Age => match upd_int(args) {
            Ok(v) => Ok(UniPenBuilderView { meta: MetadataView { age: v, ..b.meta }, ..b }),
            Err(e) => Err(e),
        },
        _ => Ok(b),
    }
}

/// The effect of a list- or vocabulary-field statement.
pub open spec fn spec_list_step(b: UniPenBuilderView, s: StatementView) -> Result<
    UniPenBuilderView,
    UniPenError,
> {
    let args = s.arguments;
    match s.keyword {
        Keyword::Coordinate => {
            if sole_unknown(args) {
                Ok(UniPenBuilderView {
                    meta: MetadataView { coordinate_order: None, ..b.meta },
                    ..b
                })
            } else {
                match coords_of(args) {
                    Ok(v) => Ok(UniPenBuilderView {
                        meta: MetadataView { coordinate_order: Some(v), ..b.meta },
                        ..b
                    }),
                    Err(e) => Err(e),
                }
            }
        },
        Keyword::Hierarchy => {
            if sole_unknown(args) {
                Ok(UniPenBuilderView {
                    meta: MetadataView { hierarchy_order: None, ..b.meta },
                    ..b
                })
            } else {
                match texts_of(args) {
                    Ok(v) => Ok(UniPenBuilderView {
                        meta: MetadataView { hierarchy_order: Some(v), ..b.meta },
                        ..b
                    }),
                    Err(e) => Err(e),
                }
            }
        },
        Keyword::Alphabet => {
            if sole_unknown(args) {
                Ok(UniPenBuilderView { meta: MetadataView { alphabet: None, ..b.meta }, ..b })
            } else {
                match texts_of(args) {
                    Ok(v) => Ok(UniPenBuilderView {
                        meta: MetadataView { alphabet: Some(v), ..b.meta },
                        ..b
                    }),
                    Err(e) => Err(e),
                }
            }
        },
        Keyword::AlphabetFreq => {
            if sole_unknown(args) {
                Ok(UniPenBuilderView {
                    meta: MetadataView { alphabet_frequency: None, ..b.meta },
                    ..b
                })
            } else {
                match ints_of(args) {
                    Ok(v) => Ok(UniPenBuilderView {
                        meta: MetadataView { alphabet_frequency: Some(v), ..b.meta },
                        ..b
                    }),
                    Err(e) => Err(e),
                }
            }
        },
        Keyword::Lexicon => {
            if sole_unknown(args) {
                Ok(UniPenBuilderView { meta: MetadataView { lexicon: None, ..b.meta }, ..b })
            } else {
                match texts_of(args) {
                    Ok(v) => Ok(UniPenBuilderView {
                        meta: MetadataView { lexicon: Some(v), ..b.meta },
                        ..b
                    }),
                    Err(e) => Err(e),
                }
            }
        },
        Keyword::LexiconFreq => {
            if sole_unknown(args) {
                Ok(UniPenBuilderView {
                    meta: MetadataView { lexicon_frequency: None, ..b.meta },
                    ..b
                })
            } else {
                match ints_of(args) {
                    Ok(v) => Ok(UniPenBuilderView {
                        meta: MetadataView { lexicon_frequency: Some(v), ..b.meta },
                        ..b
                    }),
                    Err(e) => Err(e),
                }
            }
        },
        Keyword::HLine => {
            if sole_unknown(args) {
                Ok(UniPenBuilderView { meta: MetadataView { h_lines: None, ..b.meta }, ..b })
            } else {
                match ints_of(args) {
                    Ok(v) => Ok(UniPenBuilderView {
                        meta: MetadataView { h_lines: Some(v), ..b.meta },
                        ..b
                    }),
                    Err(e) => Err(e),
                }
            }
        },
        Keyword::VLine => {
            if sole_unknown(args) {
                Ok(UniPenBuilderView { meta: MetadataView { v_lines: None, ..b.meta }, ..b })
            } else {
                match ints_of(args) {
                    Ok(v) => Ok(UniPenBuilderView {
                        meta: MetadataView { v_lines: Some(v), ..b.meta },
                        ..b
                    }),
                    Err(e) => Err(e),
                }
            }
        },
        Keyword::Style => match upd_reserved(args) {
            Err(e) => Err(e),
            Ok(None) => Ok(UniPenBuilderView { meta: MetadataView { style: None, ..b.meta }, ..b }),
            Ok(Some(r)) => match Style::spec_try_from(r) {
                Ok(v) => Ok(UniPenBuilderView {
                    meta: MetadataView { style: Some(v), ..b.meta },
                    ..b
                }),
                Err(e) => Err(e),
            },
        },
        Keyword::Hand => match upd_reserved(args) {
            Err(e) => Err(e),
            Ok(None) => Ok(UniPenBuilderView { meta: MetadataView { hand: None, ..b.meta }, ..b }),
            Ok(Some(r)) => match Hand::spec_try_from(r) {
                Ok(v) => Ok(UniPenBuilderView {
                    meta: MetadataView { hand: Some(v), ..b.meta },
                    ..b
                }),
                Err(e) => Err(e),
            },
        },
        Keyword::Sex => match upd_reserved(args) {
            Err(e) => Err(e),
            Ok(None) => Ok(UniPenBuilderView { meta: MetadataView { sex: None, ..b.meta }, ..b }),
            Ok(Some(r)) => match Sex::spec_try_from(r) {
                Ok(v) => Ok(UniPenBuilderView {
                    meta: MetadataView { sex: Some(v), ..b.meta },
                    ..b
                }),
                Err(e) => Err(e),
            },
        },
        Keyword::Skill => match upd_reserved(args) {
            Err(e) => Err(e),
            Ok(None) => Ok(UniPenBuilderView { meta: MetadataView { skill: None, ..b.meta }, ..b }),
            Ok(Some(r)) => match Skill::spec_try_from(r) {
                Ok(v) => Ok(UniPenBuilderView {
                    meta: MetadataView { skill: Some(v), ..b.meta },
                    ..b
                }),
                Err(e) => Err(e),
            },
        },
        _ => Ok(b),
    }
}

/// The exact effect of one statement on the builder: the transition
/// relation of the fold.
pub open spec fn spec_step(b: UniPenBuilderView, s: StatementView) -> Result<
    UniPenBuilderView,
    UniPenError,
> {
    let args = s.arguments;
    if text_kw(s.keyword) {
        spec_text_step(b, s)
    } else if num_kw(s.keyword) {
        spec_num_step(b, s)
    } else if list_kw(s.keyword) {
        spec_list_step(b, s)
    } else {
    match s.keyword {
        Keyword::Keyword | Keyword::Reserve | Keyword::Comment | Keyword::Date
            | Keyword::StartSet | Keyword::StartBox | Keyword::RecSource | Keyword::RecId
            | Keyword::RecContact | Keyword::RecInfo | Keyword::Implement | Keyword::TrainingSet
            | Keyword::TestSet | Keyword::AdaptSet | Keyword::LexiconSet | Keyword::RecTime
            | Keyword::RecLabels | Keyword::RecScores => Ok(b),
        Keyword::Inclusion => match first_arg(args) {
            Err(e) => Err(e),
            Ok(a) => match a {
                ArgView::Str(name) => Ok(
                    if b.current.coordinates.len() == 0 {
                        UniPenBuilderView {
                            file_stack: b.file_stack.push(name),
                            current: ComponentSetBuilderView { name: name, ..b.current },
                            ..b
                        }
                    } else {
                        UniPenBuilderView {
                            file_stack: b.file_stack.push(name),
                            done: b.done.push(b.current),
                            current: ComponentSetBuilderView {
                                name: name,
                                ..ComponentSetBuilderView::spec_empty()
                            },
                            current_time: 0,
                            ..b
                        }
                    },
                ),
                _ => Err(UniPenError::Translation(TranslationKind::ArgumentShape)),
            },
        },
        Keyword::EndOfInput => {
            if b.file_stack.len() == 0 {
                Err(UniPenError::Translation(TranslationKind::UnbalancedPop))
            } else {
                Ok(UniPenBuilderView { file_stack: b.file_stack.drop_last(), ..b })
            }
        },
        Keyword::PenDown => spec_pen_statement(b, args, true),
        Keyword::PenUp => spec_pen_statement(b, args, false),
        Keyword::Dt => match first_arg(args) {
            Err(e) => Err(e),
            Ok(a) => match a {
                ArgView::Number(n) => {
                    let d = n.spec_micros() as i64;
                    let has_t = match b.meta.coordinate_order {
                        Some(order) => order.contains(CoordinateType::Time),
                        None => false,
                    };
                    if !has_t && !(0 <= b.current_time + d <= i64::MAX) {
                        Err(UniPenError::Validation(ValidationKind::TimeOverflow))
                    } else {
                        Ok(UniPenBuilderView {
                            current: ComponentSetBuilderView {
                                components: b.current.components.push(
                                    crate::model::Component::Dt(d),
                                ),
                                ..b.current
                            },
                            current_time: if has_t {
                                b.current_time
                            } else {
                                (b.current_time + d) as i64
                            },
                            ..b
                        })
                    }
                },
                _ => Err(UniPenError::Translation(TranslationKind::ArgumentShape)),
            },
        },
        Keyword::Segment => spec_segment(b, args),
        _ => Ok(b),
    }
    }
}

/// The exact effect of a segment statement: hierarchy, component list,
/// then an optional quality word followed by an optional label.
pub open spec fn spec_segment(b: UniPenBuilderView, args: Seq<ArgView>) -> Result<
    UniPenBuilderView,
    UniPenError,
> {
    if args.len() < 2 || args.len() > 4 {
        Err(UniPenError::Translation(TranslationKind::ArgumentShape))
    } else {
        match (args[0], args[1]) {
            (ArgView::Str(h), ArgView::List(items)) => {
                let tail: Result<(Option<Quality>, Option<Seq<char>>), UniPenError> = if args.len()
                    == 2 {
                    Ok((None, None))
                } else if args.len() == 3 {
                    match args[2] {
                        ArgView::Reserved(r) => match Quality::spec_try_from(r) {
                            Ok(q) => Ok((Some(q), None)),
                            Err(e) => Err(e),
                        },
                        ArgView::Label(l) => Ok((None, Some(l))),
                        _ => Err(UniPenError::Translation(TranslationKind::ArgumentShape)),
                    }
                } else {
                    match (args[2], args[3]) {
                        (ArgView::Reserved(r), ArgView::Label(l)) => match Quality::spec_try_from(
                            r,
                        ) {
                            Ok(q) => Ok((Some(q), Some(l))),
                            Err(e) => Err(e),
                        },
                        _ => Err(UniPenError::Translation(TranslationKind::ArgumentShape)),
                    }
                };
                match tail {
                    Ok((q, l)) => Ok(UniPenBuilderView {
                        current: ComponentSetBuilderView {
                            pending: b.current.pending.push(
                                crate::component_set::PendingSegmentView {
                                    hierarchy: h,
                                    items: items,
                                    quality: q,
                                    label: l,
                                },
                            ),
                            ..b.current
                        },
                        ..b
                    }),
                    Err(e) => Err(e),
                }
            },
            _ => Err(UniPenError::Translation(TranslationKind::ArgumentShape)),
        }
    }
}

/// Finalizes each retired sample-set builder in order; the first error
/// aborts the build.
pub open spec fn build_all(sets: Seq<ComponentSetBuilderView>) -> Result<
    Seq<ComponentSetView>,
    UniPenError,
>
    decreases sets.len(),
{
    if sets.len() == 0 {
        Ok(Seq::empty())
    } else {
        match spec_build(sets.first()) {
            Ok(c) => match build_all(sets.drop_first()) {
                Ok(rest) => Ok(seq![c] + rest),
                Err(e) => Err(e),
            },
            Err(e) => Err(e),
        }
    }
}

/// The exact result of finishing the fold: the still-active sample set,
/// when it holds coordinates, is retired behind the completed ones; every
/// set is finalized; the metadata is taken as it stands.
pub open spec fn spec_finish(b: UniPenBuilderView) -> Result<UniPenView, UniPenError> {
    let sets = if b.current.coordinates.len() > 0 {
        b.done.push(b.current)
    } else {
        b.done
    };
    match build_all(sets) {
        Ok(cs) => Ok(UniPenView { metadata: b.meta, component_sets: cs }),
        Err(e) => Err(e),
    }
}


/// Whether the declared order carries a channel.
fn has_channel(order: &Vec<CoordinateType>, c: CoordinateType) -> (r: bool)
    ensures
        r == order@.contains(c),
{
    let mut i: usize = 0;
    while i < order.len()
        invariant
            i <= order@.len(),
            forall|j: int| 0 <= j < i ==> order@[j] != c,
        decreases order@.len() - i,
    {
        if order[i] == c {
            return true;
        }
        i += 1;
    }
    false
}

/// The pen-statement numerals, in millionths.
fn micros_of_exec(args: &Vec<StatementArgument>) -> (r: Result<Vec<i64>, UniPenError>)
    ensures
        match r {
            Ok(v) => micros_of(args@.map_values(|a: StatementArgument| a@)) == Ok::<
                Seq<i64>,
                UniPenError,
            >(v@),
            Err(e) => micros_of(args@.map_values(|a: StatementArgument| a@)) == Err::<
                Seq<i64>,
                UniPenError,
            >(e),
        },
{
    let ghost av = args@.map_values(|a: StatementArgument| a@);
    let mut out: Vec<i64> = Vec::new();
    let n = args.len();
    let mut i: usize = 0;
    proof {
        assert(av.skip(0) =~= av);
        if let Ok(rest) = micros_of(av) {
            assert(out@ + rest =~= rest);
        }
    }
    while i < n
        invariant
            i <= n,
            n == args@.len(),
            av == args@.map_values(|a: StatementArgument| a@),
            match micros_of(av.skip(i as int)) {
                Ok(rest) => micros_of(av) == Ok::<Seq<i64>, UniPenError>(out@ + rest),
                Err(e) => micros_of(av) == Err::<Seq<i64>, UniPenError>(e),
            },
        decreases n - i,
    {
        proof {
            assert(av.skip(i as int).first() == av[i as int]);
            assert(av.skip(i as int).drop_first() =~= av.skip(i as int + 1));
        }
        let m: i64 = match &args[i] {
            StatementArgument::Number(nu) => nu.micros(),
            _ => {
                return Err(UniPenError::Translation(TranslationKind::ArgumentShape));
            }
        };
        let ghost old_out = out@;
        out.push(m);
        proof {
            if let Ok(rest2) = micros_of(av.skip(i as int + 1)) {
                assert(old_out + (seq![m] + rest2) =~= out@ + rest2);
            }
        }
        i += 1;
    }
    proof {
        assert(av.skip(n as int) =~= Seq::<ArgView>::empty());
        assert(out@ + Seq::<i64>::empty() =~= out@);
    }
    Ok(out)
}

/// The texts of a homogeneous identifier list.
fn texts_of_exec(args: &Vec<StatementArgument>) -> (r: Result<Vec<Vec<char>>, UniPenError>)
    ensures
        match r {
            Ok(v) => texts_of(args@.map_values(|a: StatementArgument| a@)) == Ok::<
                Seq<Seq<char>>,
                UniPenError,
            >(v@.map_values(|t: Vec<char>| t@)),
            Err(e) => texts_of(args@.map_values(|a: StatementArgument| a@)) == Err::<
                Seq<Seq<char>>,
                UniPenError,
            >(e),
        },
{
    let ghost av = args@.map_values(|a: StatementArgument| a@);
    let mut out: Vec<Vec<char>> = Vec::new();
    let n = args.len();
    let mut i: usize = 0;
    proof {
        assert(av.skip(0) =~= av);
        assert(out@.map_values(|t: Vec<char>| t@) =~= Seq::<Seq<char>>::empty());
        if let Ok(rest) = texts_of(av) {
            assert(Seq::<Seq<char>>::empty() + rest =~= rest);
        }
    }
    while i < n
        invariant
            i <= n,
            n == args@.len(),
            av == args@.map_values(|a: StatementArgument| a@),
            match texts_of(av.skip(i as int)) {
                Ok(rest) => texts_of(av) == Ok::<Seq<Seq<char>>, UniPenError>(
                    out@.map_values(|t: Vec<char>| t@) + rest,
                ),
                Err(e) => texts_of(av) == Err::<Seq<Seq<char>>, UniPenError>(e),
            },
        decreases n - i,
    {
        proof {
            assert(av.skip(i as int).first() == av[i as int]);
            assert(av.skip(i as int).drop_first() =~= av.skip(i as int + 1));
        }
        let t: Vec<char> = match &args[i] {
            StatementArgument::String(s) => copy_chars(s),
            _ => {
                return Err(UniPenError::Translation(TranslationKind::ArgumentShape));
            }
        };
        let ghost old_views = out@.map_values(|t: Vec<char>| t@);
        let ghost tv = t@;
        out.push(t);
        proof {
            assert(out@.map_values(|t: Vec<char>| t@) =~= old_views.push(tv));
            if let Ok(rest2) = texts_of(av.skip(i as int + 1)) {
                assert(old_views.push(tv) + rest2 =~= old_views + (seq![tv] + rest2));
            }
        }
        i += 1;
    }
    proof {
        assert(av.skip(n as int) =~= Seq::<ArgView>::empty());
        assert(out@.map_values(|t: Vec<char>| t@) + Seq::<Seq<char>>::empty()
            =~= out@.map_values(|t: Vec<char>| t@));
    }
    Ok(out)
}

/// The values of a homogeneous numeral list, truncated toward zero.
fn ints_of_exec(args: &Vec<StatementArgument>) -> (r: Result<Vec<i32>, UniPenError>)
    ensures
        match r {
            Ok(v) => ints_of(args@.map_values(|a: StatementArgument| a@)) == Ok::<
                Seq<i32>,
                UniPenError,
            >(v@),
            Err(e) => ints_of(args@.map_values(|a: StatementArgument| a@)) == Err::<
                Seq<i32>,
                UniPenError,
            >(e),
        },
{
    let ghost av = args@.map_values(|a: StatementArgument| a@);
    let mut out: Vec<i32> = Vec::new();
    let n = args.len();
    let mut i: usize = 0;
    proof {
        assert(av.skip(0) =~= av);
        if let Ok(rest) = ints_of(av) {
            assert(out@ + rest =~= rest);
        }
    }
    while i < n
        invariant
            i <= n,
            n == args@.len(),
            av == args@.map_values(|a: StatementArgument| a@),
            match ints_of(av.skip(i as int)) {
                Ok(rest) => ints_of(av) == Ok::<Seq<i32>, UniPenError>(out@ + rest),
                Err(e) => ints_of(av) == Err::<Seq<i32>, UniPenError>(e),
            },
        decreases n - i,
    {
        proof {
            assert(av.skip(i as int).first() == av[i as int]);
            assert(av.skip(i as int).drop_first() =~= av.skip(i as int + 1));
        }
        let m: i32 = match &args[i] {
            StatementArgument::Number(nu) => nu.truncated(),
            _ => {
                return Err(UniPenError::Translation(TranslationKind::ArgumentShape));
            }
        };
        let ghost old_out = out@;
        out.push(m);
        proof {
            if let Ok(rest2) = ints_of(av.skip(i as int + 1)) {
                assert(old_out + (seq![m] + rest2) =~= out@ + rest2);
            }
        }
        i += 1;
    }
    proof {
        assert(av.skip(n as int) =~= Seq::<ArgView>::empty());
        assert(out@ + Seq::<i32>::empty() =~= out@);
    }
    Ok(out)
}

/// The channels of a coordinate-order declaration.
fn coords_of_exec(args: &Vec<StatementArgument>) -> (r: Result<Vec<CoordinateType>, UniPenError>)
    ensures
        match r {
            Ok(v) => coords_of(args@.map_values(|a: StatementArgument| a@)) == Ok::<
                Seq<CoordinateType>,
                UniPenError,
            >(v@),
            Err(e) => coords_of(args@.map_values(|a: StatementArgument| a@)) == Err::<
                Seq<CoordinateType>,
                UniPenError,
            >(e),
        },
{
    let ghost av = args@.map_values(|a: StatementArgument| a@);
    let mut out: Vec<CoordinateType> = Vec::new();
    let n = args.len();
    let mut i: usize = 0;
    proof {
        assert(av.skip(0) =~= av);
        if let Ok(rest) = coords_of(av) {
            assert(out@ + rest =~= rest);
        }
    }
    while i < n
        invariant
            i <= n,
            n == args@.len(),
            av == args@.map_values(|a: StatementArgument| a@),
            match coords_of(av.skip(i as int)) {
                Ok(rest) => coords_of(av) == Ok::<Seq<CoordinateType>, UniPenError>(out@ + rest),
                Err(e) => coords_of(av) == Err::<Seq<CoordinateType>, UniPenError>(e),
            },
        decreases n - i,
    {
        proof {
            assert(av.skip(i as int).first() == av[i as int]);
            assert(av.skip(i as int).drop_first() =~= av.skip(i as int + 1));
        }
        let m: CoordinateType = match &args[i] {
            StatementArgument::Reserved(rw) => match CoordinateType::try_from(rw) {
                Ok(c) => c,
                Err(e) => {
                    return Err(e);
                }
            },
            _ => {
                return Err(UniPenError::Translation(TranslationKind::ArgumentShape));
            }
        };
        let ghost old_out = out@;
        out.push(m);
        proof {
            if let Ok(rest2) = coords_of(av.skip(i as int + 1)) {
                assert(old_out + (seq![m] + rest2) =~= out@ + rest2);
            }
        }
        i += 1;
    }
    proof {
        assert(av.skip(n as int) =~= Seq::<ArgView>::empty());
        assert(out@ + Seq::<CoordinateType>::empty() =~= out@);
    }
    Ok(out)
}

impl UniPenBuilder {
    /// A fresh builder: nothing declared, nothing collected, time zero.
    pub fn new() -> (r: UniPenBuilder)
        ensures
            r@ == UniPenBuilderView::spec_new(),
            r@.wf(),
    {
        let r = UniPenBuilder {
            file_stack: Vec::new(),
            current_time: 0,
            current: ComponentSetBuilder::default(),
            done: Vec::new(),
            meta: Metadata::new(),
        };
        proof {
            assert(r@.file_stack =~= Seq::<Seq<char>>::empty());
            assert(r@.done =~= Seq::<ComponentSetBuilderView>::empty());
        }
        r
    }

    /// Decodes a pen statement's flat numeral list into coordinates: the
    /// numerals fill whole groups of the declared order, each channel
    /// taking its positional value, with the group's cursor time standing
    /// in when `Time` is not declared.
    #[verifier::loop_isolation(false)]
    fn pen_statement_to_coords(
        order: &Vec<CoordinateType>,
        nums: &Vec<i64>,
        base: i64,
        inc: i64,
        g: usize,
    ) -> (r: Vec<Coordinate>)
        requires
            order@.len() > 0,
            nums@.len() == g * order@.len(),
            order@.contains(CoordinateType::XPosition),
            order@.contains(CoordinateType::YPosition),
            0 <= inc,
            base + g * inc <= i64::MAX,
        ensures
            r@ == groups_coords(order@, nums@, base as int, inc as int, g as int),
    {
        let k = order.len();
        let n_nums = nums.len();
        let mut coords: Vec<Coordinate> = Vec::new();
        let mut gi: usize = 0;
        let mut t: i64 = base;
        while gi < g
            invariant
                gi <= g,
                gi < g ==> t == base + gi * inc,
                coords@ == groups_coords(order@, nums@, base as int, inc as int, gi as int),
            decreases g - gi,
        {
            proof {
                assert(0 <= gi * inc && gi * inc <= g * inc) by (nonlinear_arith)
                    requires 0 <= gi <= g, 0 <= inc;
            }
            proof {
                assert((gi + 1) * k <= g * k) by (nonlinear_arith)
                    requires gi + 1 <= g, k >= 0;
                assert(gi * k + k == (gi + 1) * k) by (nonlinear_arith);
                assert(gi * k + k <= n_nums);
            }
            let gbase = gi * k;
            let ghost gseq = nums@.subrange(gbase as int, gbase as int + k as int);
            let mut cx: Option<i64> = None;
            let mut cy: Option<i64> = None;
            let mut ct: Option<i64> = None;
            let mut cp: Option<i64> = None;
            let mut cz: Option<i64> = None;
            let mut cb: Option<i64> = None;
            let mut cr: Option<i64> = None;
            let mut cth: Option<i64> = None;
            let mut cph: Option<i64> = None;
            let mut j: usize = 0;
            proof {
                assert(order@.take(0) =~= Seq::<CoordinateType>::empty());
                assert(gseq.take(0) =~= Seq::<i64>::empty());
            }
            while j < k
                invariant
                    j <= k,
                    gbase == gi * k,
                    gbase + k <= nums@.len(),
                    gseq == nums@.subrange(gbase as int, gbase as int + k as int),
                    cx == chan(order@.take(j as int), gseq.take(j as int), CoordinateType::XPosition),
                    cy == chan(order@.take(j as int), gseq.take(j as int), CoordinateType::YPosition),
                    ct == chan(order@.take(j as int), gseq.take(j as int), CoordinateType::Time),
                    cp == chan(order@.take(j as int), gseq.take(j as int), CoordinateType::Pressure),
                    cz == chan(order@.take(j as int), gseq.take(j as int), CoordinateType::ZPosition),
                    cb == chan(order@.take(j as int), gseq.take(j as int), CoordinateType::Button),
                    cr == chan(order@.take(j as int), gseq.take(j as int), CoordinateType::Rho),
                    cth == chan(order@.take(j as int), gseq.take(j as int), CoordinateType::Theta),
                    cph == chan(order@.take(j as int), gseq.take(j as int), CoordinateType::Phi),
                decreases k - j,
            {
                let v = nums[gbase + j];
                proof {
                    assert(gseq[j as int] == nums@[gbase as int + j as int]);
                    assert(order@.take(j as int + 1).drop_last() =~= order@.take(j as int));
                    assert(gseq.take(j as int + 1).drop_last() =~= gseq.take(j as int));
                    assert(order@.take(j as int + 1).last() == order@[j as int]);
                    assert(gseq.take(j as int + 1).last() == gseq[j as int]);
                }
                match order[j] {
                    CoordinateType::XPosition => { cx = Some(v); },
                    CoordinateType::YPosition => { cy = Some(v); },
                    CoordinateType::Time => { ct = Some(v); },
                    CoordinateType::Pressure => { cp = Some(v); },
                    CoordinateType::ZPosition => { cz = Some(v); },
                    CoordinateType::Button => { cb = Some(v); },
                    CoordinateType::Rho => { cr = Some(v); },
                    CoordinateType::Theta => { cth = Some(v); },
                    CoordinateType::Phi => { cph = Some(v); },
                }
                j += 1;
            }
            proof {
                assert(order@.take(k as int) =~= order@);
                assert(gseq.take(k as int) =~= gseq);
                lemma_chan_present(order@, gseq, CoordinateType::XPosition);
                lemma_chan_present(order@, gseq, CoordinateType::YPosition);
            }
            let xv: i64 = match cx {
                Some(v) => v,
                None => {
                    proof {
                        assert(false);
                    }
                    0
                }
            };
            let yv: i64 = match cy {
                Some(v) => v,
                None => {
                    proof {
                        assert(false);
                    }
                    0
                }
            };
            let tv: i64 = match ct {
                Some(v) => v,
                None => t,
            };
            let c = Coordinate {
                x_position: xv,
                y_position: yv,
                time: tv,
                pressure: cp,
                z_position: cz,
                button: cb,
                rho: cr,
                theta: cth,
                phi: cph,
            };
            proof {
                assert(c == group_coord(order@, gseq, t));
            }
            coords.push(c);
            proof {
                assert(groups_coords(order@, nums@, base as int, inc as int, gi as int + 1)
                    == groups_coords(order@, nums@, base as int, inc as int, gi as int).push(
                    group_coord(
                        order@,
                        nums@.subrange((gi as int) * order@.len(), (gi as int + 1) * order@.len()),
                        (base + (gi as int) * inc) as i64,
                    ),
                ));
                assert(nums@.subrange((gi as int) * order@.len(), (gi as int + 1) * order@.len())
                    =~= gseq);
                assert((base + (gi as int) * inc) as i64 == t);
            }
            gi += 1;
            if gi < g {
                proof {
                    assert((gi - 1) * inc + inc == gi * inc) by (nonlinear_arith);
                    assert(0 <= gi * inc && gi * inc <= g * inc) by (nonlinear_arith)
                        requires 0 <= gi <= g, 0 <= inc;
                }
                t = t + inc;
            }
        }
        coords
    }

    /// Applies a pen statement.
    fn pen_apply(self, args: &Vec<StatementArgument>, down: bool) -> (r: Result<
        UniPenBuilder,
        UniPenError,
    >)
        ensures
            match r {
                Ok(b2) => spec_pen_statement(
                    self@,
                    args@.map_values(|a: StatementArgument| a@),
                    down,
                ) == Ok::<UniPenBuilderView, UniPenError>(b2@) && (self@.wf() ==> b2@.wf()),
                Err(e) => spec_pen_statement(
                    self@,
                    args@.map_values(|a: StatementArgument| a@),
                    down,
                ) == Err::<UniPenBuilderView, UniPenError>(e),
            },
    {
        let ghost bv = self@;
        let mut this = self;
        let order: Vec<CoordinateType> = match &this.meta.coordinate_order {
            Some(o) => copy_vec(o),
            None => {
                return Err(UniPenError::Validation(ValidationKind::MissingCoordinateOrder));
            }
        };
        let nums = match micros_of_exec(args) {
            Ok(v) => v,
            Err(e) => {
                return Err(e);
            }
        };
        if nums.len() == 0 {
            return Ok(this);
        }
        if order.len() == 0 {
            return Err(UniPenError::Validation(ValidationKind::EmptyCoordinateOrder));
        }
        if nums.len() % order.len() != 0 {
            return Err(UniPenError::Validation(ValidationKind::ShortGroup));
        }
        if !has_channel(&order, CoordinateType::XPosition) {
            return Err(UniPenError::Validation(ValidationKind::MissingXChannel));
        }
        if !has_channel(&order, CoordinateType::YPosition) {
            return Err(UniPenError::Validation(ValidationKind::MissingYChannel));
        }
        let has_t = has_channel(&order, CoordinateType::Time);
        let inc: i64 = if has_t {
            0
        } else {
            match this.meta.points_per_second {
                Some(p) => if p > 0 {
                    proof {
                        assert(1_000_000_000_000int / (p as int) <= 1_000_000_000_000
                            && 1_000_000_000_000int / (p as int) >= 0) by (nonlinear_arith)
                            requires p >= 1;
                    }
                    1_000_000_000_000i64 / p
                } else {
                    0
                },
                None => 0,
            }
        };
        let g = nums.len() / order.len();
        proof {
            assert(g * order@.len() == nums@.len()) by (nonlinear_arith)
                requires
                    order@.len() > 0,
                    nums@.len() % order@.len() == 0,
                    g == nums@.len() as int / order@.len() as int;
            assert(0 <= g * inc <= g * 1_000_000_000_000) by (nonlinear_arith)
                requires 0 <= g, 0 <= inc <= 1_000_000_000_000;
        }
        if !has_t {
            let total: i128 = this.current_time as i128 + (g as i128) * (inc as i128);
            if total > i64::MAX as i128 {
                return Err(UniPenError::Validation(ValidationKind::TimeOverflow));
            }
        }
        proof {
            if has_t {
                assert(g * 0 == 0) by (nonlinear_arith);
            }
        }
        if this.current.coordinate_count() > usize::MAX - g {
            return Err(UniPenError::Validation(ValidationKind::TooManySamples));
        }
        let base = this.current_time;
        let coords = UniPenBuilder::pen_statement_to_coords(&order, &nums, base, inc, g);
        proof {
            assert(coords@.len() == g) by {
                lemma_groups_coords_len(order@, nums@, base as int, inc as int, g as int);
            }
        }
        let cur = this.current;
        this.current = if down {
            cur.pen_down(coords)
        } else {
            cur.pen_up(coords)
        };
        if !has_t {
            let nt: i128 = this.current_time as i128 + (g as i128) * (inc as i128);
            this.current_time = nt as i64;
        }
        Ok(this)
    }
}

/// Reads a statement's single free-text argument.
fn take_free(args: &Vec<StatementArgument>) -> (r: Result<Option<Vec<char>>, UniPenError>)
    ensures
        match r {
            Ok(v) => upd_free(args@.map_values(|a: StatementArgument| a@)) == Ok::<
                Option<Seq<char>>,
                UniPenError,
            >(crate::model::opt_chars(v)),
            Err(e) => upd_free(args@.map_values(|a: StatementArgument| a@)) == Err::<
                Option<Seq<char>>,
                UniPenError,
            >(e),
        },
{
    if args.len() == 0 {
        return Err(UniPenError::Translation(TranslationKind::MissingArgument));
    }
    proof {
        assert(args@.map_values(|a: StatementArgument| a@)[0] == args@[0]@);
    }
    match &args[0] {
        StatementArgument::Reserved(Reserved::Unknown) => Ok(None),
        StatementArgument::FreeText(s) => Ok(Some(copy_chars(s))),
        _ => Err(UniPenError::Translation(TranslationKind::ArgumentShape)),
    }
}

/// Reads a statement's single identifier argument.
fn take_str(args: &Vec<StatementArgument>) -> (r: Result<Option<Vec<char>>, UniPenError>)
    ensures
        match r {
            Ok(v) => upd_str(args@.map_values(|a: StatementArgument| a@)) == Ok::<
                Option<Seq<char>>,
                UniPenError,
            >(crate::model::opt_chars(v)),
            Err(e) => upd_str(args@.map_values(|a: StatementArgument| a@)) == Err::<
                Option<Seq<char>>,
                UniPenError,
            >(e),
        },
{
    if args.len() == 0 {
        return Err(UniPenError::Translation(TranslationKind::MissingArgument));
    }
    proof {
        assert(args@.map_values(|a: StatementArgument| a@)[0] == args@[0]@);
    }
    match &args[0] {
        StatementArgument::Reserved(Reserved::Unknown) => Ok(None),
        StatementArgument::String(s) => Ok(Some(copy_chars(s))),
        _ => Err(UniPenError::Translation(TranslationKind::ArgumentShape)),
    }
}

/// Reads a statement's single numeral argument, in millionths.
fn take_micros(args: &Vec<StatementArgument>) -> (r: Result<Option<i64>, UniPenError>)
    ensures
        match r {
            Ok(v) => upd_micros(args@.map_values(|a: StatementArgument| a@)) == Ok::<
                Option<i64>,
                UniPenError,
            >(v),
            Err(e) => upd_micros(args@.map_values(|a: StatementArgument| a@)) == Err::<
                Option<i64>,
                UniPenError,
            >(e),
        },
{
    if args.len() == 0 {
        return Err(UniPenError::Translation(TranslationKind::MissingArgument));
    }
    proof {
        assert(args@.map_values(|a: StatementArgument| a@)[0] == args@[0]@);
    }
    match &args[0] {
        StatementArgument::Reserved(Reserved::Unknown) => Ok(None),
        StatementArgument::Number(n) => Ok(Some(n.micros())),
        _ => Err(UniPenError::Translation(TranslationKind::ArgumentShape)),
    }
}

/// Reads a statement's single numeral argument as a whole number.
fn take_int(args: &Vec<StatementArgument>) -> (r: Result<Option<i32>, UniPenError>)
    ensures
        match r {
            Ok(v) => upd_int(args@.map_values(|a: StatementArgument| a@)) == Ok::<
                Option<i32>,
                UniPenError,
            >(v),
            Err(e) => upd_int(args@.map_values(|a: StatementArgument| a@)) == Err::<
                Option<i32>,
                UniPenError,
            >(e),
        },
{
    if args.len() == 0 {
        return Err(UniPenError::Translation(TranslationKind::MissingArgument));
    }
    proof {
        assert(args@.map_values(|a: StatementArgument| a@)[0] == args@[0]@);
    }
    match &args[0] {
        StatementArgument::Reserved(Reserved::Unknown) => Ok(None),
        StatementArgument::Number(n) => Ok(Some(n.truncated())),
        _ => Err(UniPenError::Translation(TranslationKind::ArgumentShape)),
    }
}

/// Reads a statement's single reserved-word argument.
fn take_reserved(args: &Vec<StatementArgument>) -> (r: Result<Option<Reserved>, UniPenError>)
    ensures
        match r {
            Ok(v) => upd_reserved(args@.map_values(|a: StatementArgument| a@)) == Ok::<
                Option<Reserved>,
                UniPenError,
            >(v),
            Err(e) => upd_reserved(args@.map_values(|a: StatementArgument| a@)) == Err::<
                Option<Reserved>,
                UniPenError,
            >(e),
        },
{
    if args.len() == 0 {
        return Err(UniPenError::Translation(TranslationKind::MissingArgument));
    }
    proof {
        assert(args@.map_values(|a: StatementArgument| a@)[0] == args@[0]@);
    }
    match &args[0] {
        StatementArgument::Reserved(Reserved::Unknown) => Ok(None),
        StatementArgument::Reserved(rw) => Ok(Some(*rw)),
        _ => Err(UniPenError::Translation(TranslationKind::ArgumentShape)),
    }
}

/// Whether a sole unknown sentinel resets a list-valued field.
fn sole_unknown_exec(args: &Vec<StatementArgument>) -> (r: bool)
    ensures
        r == sole_unknown(args@.map_values(|a: StatementArgument| a@)),
{
    proof {
        if args@.len() > 0 {
            assert(args@.map_values(|a: StatementArgument| a@)[0] == args@[0]@);
        }
    }
    if args.len() != 1 {
        return false;
    }
    match &args[0] {
        StatementArgument::Reserved(Reserved::Unknown) => true,
        _ => false,
    }
}

/// A metadata statement changes metadata alone: the sample sets, the
/// file stack and the time cursor stay as they were.
#[verifier::rlimit(100)]
pub proof fn lemma_meta_frame(b: UniPenBuilderView, s: StatementView)
    requires
        text_kw(s.keyword) || num_kw(s.keyword) || list_kw(s.keyword),
    ensures
        match spec_step(b, s) {
            Ok(b2) => b2.current == b.current && b2.done == b.done && b2.current_time
                == b.current_time && b2.file_stack == b.file_stack,
            Err(_) => true,
        },
{
}

impl UniPenBuilder {
    /// Folds one metadata or no-op statement into the builder.
    fn meta_statement(self, statement: &Statement) -> (r: Result<UniPenBuilder, UniPenError>)
        requires
            !special_kw(statement@.keyword),
        ensures
            match r {
                Ok(b2) => spec_step(self@, statement@) == Ok::<UniPenBuilderView, UniPenError>(b2@)
                    && (self@.wf() ==> b2@.wf()),
                Err(e) => spec_step(self@, statement@) == Err::<UniPenBuilderView, UniPenError>(e),
            },
    {
        let ghost bv = self@;
        let this = self;
        match statement.keyword {
            Keyword::Keyword | Keyword::Reserve | Keyword::Comment | Keyword::Date
                | Keyword::StartSet | Keyword::StartBox | Keyword::RecSource | Keyword::RecId
                | Keyword::RecContact | Keyword::RecInfo | Keyword::Implement
                | Keyword::TrainingSet | Keyword::TestSet | Keyword::AdaptSet
                | Keyword::LexiconSet | Keyword::RecTime | Keyword::RecLabels
                | Keyword::RecScores => Ok(this),
            Keyword::DataSource | Keyword::DataId | Keyword::DataContact
                | Keyword::DataInfo | Keyword::Setup | Keyword::Pad
                | Keyword::LexiconSource | Keyword::LexiconId | Keyword::LexiconContact
                | Keyword::LexiconInfo | Keyword::WriterId | Keyword::Country
                | Keyword::WriterInfo => {
                let r = this.text_statement(statement);
                proof {
                    lemma_meta_frame(bv, statement@);
                }
                r
            },
            Keyword::Version | Keyword::XDimension | Keyword::YDimension
                | Keyword::XPointsPerInch | Keyword::YPointsPerInch
                | Keyword::ZPointsPerInch | Keyword::XPointsPerMm | Keyword::YPointsPerMm
                | Keyword::ZPointsPerMm | Keyword::PointsPerGram
                | Keyword::PointsPerSecond | Keyword::Age => {
                let r = this.num_statement(statement);
                proof {
                    lemma_meta_frame(bv, statement@);
                }
                r
            },
            Keyword::Coordinate | Keyword::Hierarchy | Keyword::Alphabet
                | Keyword::AlphabetFreq | Keyword::Lexicon | Keyword::LexiconFreq
                | Keyword::HLine | Keyword::VLine | Keyword::Style | Keyword::Hand
                | Keyword::Sex | Keyword::Skill => {
                let r = this.list_statement(statement);
                proof {
                    lemma_meta_frame(bv, statement@);
                }
                r
            },
            _ => {
                proof {
                    assert(false);
                }
                Err(UniPenError::Translation(TranslationKind::ArgumentShape))
            },
        }
    }

    fn text_statement(self, statement: &Statement) -> (r: Result<UniPenBuilder, UniPenError>)
        requires
            text_kw(statement@.keyword),
        ensures
            match r {
                Ok(b2) => spec_step(self@, statement@) == Ok::<UniPenBuilderView, UniPenError>(b2@),
                Err(e) => spec_step(self@, statement@) == Err::<UniPenBuilderView, UniPenError>(e),
            },
    {
        match statement.keyword {
            Keyword::DataSource | Keyword::DataId | Keyword::DataContact | Keyword::DataInfo => self.text_statement_data(statement),
            Keyword::Setup | Keyword::Pad | Keyword::Country | Keyword::WriterInfo => self.text_statement_setup(statement),
            Keyword::LexiconSource | Keyword::LexiconId | Keyword::LexiconContact | Keyword::LexiconInfo | Keyword::WriterId => self.text_statement_lexicon(statement),
            _ => {
                proof {
                    assert(false);
                }
                Err(UniPenError::Translation(TranslationKind::ArgumentShape))
            },
        }
    }

    #[verifier::rlimit(100)]
    fn text_statement_data(self, statement: &Statement) -> (r: Result<UniPenBuilder, UniPenError>)
        requires
            statement@.keyword == Keyword::DataSource
                || statement@.keyword == Keyword::DataId
                || statement@.keyword == Keyword::DataContact
                || statement@.keyword == Keyword::DataInfo,
        ensures
            match r {
                Ok(b2) => spec_step(self@, statement@) == Ok::<UniPenBuilderView, UniPenError>(b2@),
                Err(e) => spec_step(self@, statement@) == Err::<UniPenBuilderView, UniPenError>(e),
            },
    {
        let mut this = self;
        let args = &statement.arguments;
        proof {
            assert(statement@.arguments == args@.map_values(|a: StatementArgument| a@));
        }
        match statement.keyword {
            Keyword::DataSource => match take_free(args) {
                Ok(v) => { this.meta.data_source = v; Ok(this) },
                Err(e) => Err(e),
            },
            Keyword::DataId => match take_str(args) {
                Ok(v) => { this.meta.data_id = v; Ok(this) },
                Err(e) => Err(e),
            },
            Keyword::DataContact => match take_free(args) {
                Ok(v) => { this.meta.data_contact = v; Ok(this) },
                Err(e) => Err(e),
            },
            Keyword::DataInfo => match take_free(args) {
                Ok(v) => { this.meta.data_info = v; Ok(this) },
                Err(e) => Err(e),
            },
            _ => {
                proof {
                    assert(false);
                }
                Err(UniPenError::Translation(TranslationKind::ArgumentShape))
            },
        }
    }

    #[verifier::rlimit(100)]
    fn text_statement_setup(self, statement: &Statement) -> (r: Result<UniPenBuilder, UniPenError>)
        requires
            statement@.keyword == Keyword::Setup
                || statement@.keyword == Keyword::Pad
                || statement@.keyword == Keyword::Country
                || statement@.keyword == Keyword::WriterInfo,
        ensures
            match r {
                Ok(b2) => spec_step(self@, statement@) == Ok::<UniPenBuilderView, UniPenError>(b2@),
                Err(e) => spec_step(self@, statement@) == Err::<UniPenBuilderView, UniPenError>(e),
            },
    {
        let mut this = self;
        let args = &statement.arguments;
        proof {
            assert(statement@.arguments == args@.map_values(|a: StatementArgument| a@));
        }
        match statement.keyword {
            Keyword::Setup => match take_free(args) {
                Ok(v) => { this.meta.setup = v; Ok(this) },
                Err(e) => Err(e),
            },
            Keyword::Pad => match take_free(args) {
                Ok(v) => { this.meta.pad = v; Ok(this) },
                Err(e) => Err(e),
            },
            Keyword::Country => match take_free(args) {
                Ok(v) => { this.meta.country = v; Ok(this) },
                Err(e) => Err(e),
            },
            Keyword::WriterInfo => match take_free(args) {
                Ok(v) => { this.meta.writer_info = v; Ok(this) },
                Err(e) => Err(e),
            },
            _ => {
                proof {
                    assert(false);
                }
                Err(UniPenError::Translation(TranslationKind::ArgumentShape))
            },
        }
    }

    #[verifier::rlimit(100)]
    fn text_statement_lexicon(self, statement: &Statement) -> (r: Result<UniPenBuilder, UniPenError>)
        requires
            statement@.keyword == Keyword::LexiconSource
                || statement@.keyword == Keyword::LexiconId
                || statement@.keyword == Keyword::LexiconContact
                || statement@.keyword == Keyword::LexiconInfo
                || statement@.keyword == Keyword::WriterId,
        ensures
            match r {
                Ok(b2) => spec_step(self@, statement@) == Ok::<UniPenBuilderView, UniPenError>(b2@),
                Err(e) => spec_step(self@, statement@) == Err::<UniPenBuilderView, UniPenError>(e),
            },
    {
        let mut this = self;
        let args = &statement.arguments;
        proof {
            assert(statement@.arguments == args@.map_values(|a: StatementArgument| a@));
        }
        match statement.keyword {
            Keyword::LexiconSource => match take_free(args) {
                Ok(v) => { this.meta.lexicon_source = v; Ok(this) },
                Err(e) => Err(e),
            },
            Keyword::LexiconId => match take_str(args) {
                Ok(v) => { this.meta.lexicon_id = v; Ok(this) },
                Err(e) => Err(e),
            },
            Keyword::LexiconContact => match take_free(args) {
                Ok(v) => { this.meta.lexicon_contact = v; Ok(this) },
                Err(e) => Err(e),
            },
            Keyword::LexiconInfo => match take_free(args) {
                Ok(v) => { this.meta.lexicon_info = v; Ok(this) },
                Err(e) => Err(e),
            },
            Keyword::WriterId => match take_str(args) {
                Ok(v) => { this.meta.writer_id = v; Ok(this) },
                Err(e) => Err(e),
            },
            _ => {
                proof {
                    assert(false);
                }
                Err(UniPenError::Translation(TranslationKind::ArgumentShape))
            },
        }
    }

    fn num_statement(self, statement: &Statement) -> (r: Result<UniPenBuilder, UniPenError>)
        requires
            num_kw(statement@.keyword),
        ensures
            match r {
                Ok(b2) => spec_step(self@, statement@) == Ok::<UniPenBuilderView, UniPenError>(b2@),
                Err(e) => spec_step(self@, statement@) == Err::<UniPenBuilderView, UniPenError>(e),
            },
    {
        match statement.keyword {
            Keyword::Version | Keyword::XDimension | Keyword::YDimension | Keyword::Age => self.num_statement_dims(statement),
            Keyword::XPointsPerInch | Keyword::YPointsPerInch | Keyword::ZPointsPerInch | Keyword::PointsPerGram => self.num_statement_inch(statement),
            Keyword::XPointsPerMm | Keyword::YPointsPerMm | Keyword::ZPointsPerMm | Keyword::PointsPerSecond => self.num_statement_mm(statement),
            _ => {
                proof {
                    assert(false);
                }
                Err(UniPenError::Translation(TranslationKind::ArgumentShape))
            },
        }
    }

    #[verifier::rlimit(100)]
    fn num_statement_dims(self, statement: &Statement) -> (r: Result<UniPenBuilder, UniPenError>)
        requires
            statement@.keyword == Keyword::Version
                || statement@.keyword == Keyword::XDimension
                || statement@.keyword == Keyword::YDimension
                || statement@.keyword == Keyword::Age,
        ensures
            match r {
                Ok(b2) => spec_step(self@, statement@) == Ok::<UniPenBuilderView, UniPenError>(b2@),
                Err(e) => spec_step(self@, statement@) == Err::<UniPenBuilderView, UniPenError>(e),
            },
    {
        let mut this = self;
        let args = &statement.arguments;
        proof {
            assert(statement@.arguments == args@.map_values(|a: StatementArgument| a@));
        }
        match statement.keyword {
            Keyword::Version => match take_micros(args) {
                Ok(v) => { this.meta.version = v; Ok(this) },
                Err(e) => Err(e),
            },
            Keyword::XDimension => match take_int(args) {
                Ok(v) => { this.meta.x_dimension = v; Ok(this) },
                Err(e) => Err(e),
            },
            Keyword::YDimension => match take_int(args) {
                Ok(v) => { this.meta.y_dimension = v; Ok(this) },
                Err(e) => Err(e),
            },
            Keyword::Age => match take_int(args) {
                Ok(v) => { this.meta.age = v; Ok(this) },
                Err(e) => Err(e),
            },
            _ => {
                proof {
                    assert(false);
                }
                Err(UniPenError::Translation(TranslationKind::ArgumentShape))
            },
        }
    }

    #[verifier::rlimit(100)]
    fn num_statement_inch(self, statement: &Statement) -> (r: Result<UniPenBuilder, UniPenError>)
        requires
            statement@.keyword == Keyword::XPointsPerInch
                || statement@.keyword == Keyword::YPointsPerInch
                || statement@.keyword == Keyword::ZPointsPerInch
                || statement@.keyword == Keyword::PointsPerGram,
        ensures
            match r {
                Ok(b2) => spec_step(self@, statement@) == Ok::<UniPenBuilderView, UniPenError>(b2@),
                Err(e) => spec_step(self@, statement@) == Err::<UniPenBuilderView, UniPenError>(e),
            },
    {
        let mut this = self;
        let args = &statement.arguments;
        proof {
            assert(statement@.arguments == args@.map_values(|a: StatementArgument| a@));
        }
        match statement.keyword {
            Keyword::XPointsPerInch => match take_micros(args) {
                Ok(v) => { this.meta.x_points_per_inch = v; Ok(this) },
                Err(e) => Err(e),
            },
            Keyword::YPointsPerInch => match take_micros(args) {
                Ok(v) => { this.meta.y_points_per_inch = v; Ok(this) },
                Err(e) => Err(e),
            },
            Keyword::ZPointsPerInch => match take_micros(args) {
                Ok(v) => { this.meta.z_points_per_inch = v; Ok(this) },
                Err(e) => Err(e),
            },
            Keyword::PointsPerGram => match take_micros(args) {
                Ok(v) => { this.meta.points_per_gram = v; Ok(this) },
                Err(e) => Err(e),
            },
            _ => {
                proof {
                    assert(false);
                }
                Err(UniPenError::Translation(TranslationKind::ArgumentShape))
            },
        }
    }

    #[verifier::rlimit(100)]
    fn num_statement_mm(self, statement: &Statement) -> (r: Result<UniPenBuilder, UniPenError>)
        requires
            statement@.keyword == Keyword::XPointsPerMm
                || statement@.keyword == Keyword::YPointsPerMm
                || statement@.keyword == Keyword::ZPointsPerMm
                || statement@.keyword == Keyword::PointsPerSecond,
        ensures
            match r {
                Ok(b2) => spec_step(self@, statement@) == Ok::<UniPenBuilderView, UniPenError>(b2@),
                Err(e) => spec_step(self@, statement@) == Err::<UniPenBuilderView, UniPenError>(e),
            },
    {
        let mut this = self;
        let args = &statement.arguments;
        proof {
            assert(statement@.arguments == args@.map_values(|a: StatementArgument| a@));
        }
        match statement.keyword {
            Keyword::XPointsPerMm => match take_micros(args) {
                Ok(v) => { this.meta.x_points_per_mm = v; Ok(this) },
                Err(e) => Err(e),
            },
            Keyword::YPointsPerMm => match take_micros(args) {
                Ok(v) => { this.meta.y_points_per_mm = v; Ok(this) },
                Err(e) => Err(e),
            },
            Keyword::ZPointsPerMm => match take_micros(args) {
                Ok(v) => { this.meta.z_points_per_mm = v; Ok(this) },
                Err(e) => Err(e),
            },
            Keyword::PointsPerSecond => match take_micros(args) {
                Ok(v) => { this.meta.points_per_second = v; Ok(this) },
                Err(e) => Err(e),
            },
            _ => {
                proof {
                    assert(false);
                }
                Err(UniPenError::Translation(TranslationKind::ArgumentShape))
            },
        }
    }

    fn list_statement(self, statement: &Statement) -> (r: Result<UniPenBuilder, UniPenError>)
        requires
            list_kw(statement@.keyword),
        ensures
            match r {
                Ok(b2) => spec_step(self@, statement@) == Ok::<UniPenBuilderView, UniPenError>(b2@),
                Err(e) => spec_step(self@, statement@) == Err::<UniPenBuilderView, UniPenError>(e),
            },
    {
        match statement.keyword {
            Keyword::Coordinate | Keyword::Hierarchy | Keyword::Alphabet | Keyword::AlphabetFreq => self.list_statement_order(statement),
            Keyword::Lexicon | Keyword::LexiconFreq | Keyword::HLine | Keyword::VLine => self.list_statement_layout(statement),
            Keyword::Style | Keyword::Hand | Keyword::Sex | Keyword::Skill => self.list_statement_writer(statement),
            _ => {
                proof {
                    assert(false);
                }
                Err(UniPenError::Translation(TranslationKind::ArgumentShape))
            },
        }
    }

    #[verifier::rlimit(100)]
    fn list_statement_order(self, statement: &Statement) -> (r: Result<UniPenBuilder, UniPenError>)
        requires
            statement@.keyword == Keyword::Coordinate
                || statement@.keyword == Keyword::Hierarchy
                || statement@.keyword == Keyword::Alphabet
                || statement@.keyword == Keyword::AlphabetFreq,
        ensures
            match r {
                Ok(b2) => spec_step(self@, statement@) == Ok::<UniPenBuilderView, UniPenError>(b2@),
                Err(e) => spec_step(self@, statement@) == Err::<UniPenBuilderView, UniPenError>(e),
            },
    {
        let mut this = self;
        let args = &statement.arguments;
        proof {
            assert(statement@.arguments == args@.map_values(|a: StatementArgument| a@));
        }
        match statement.keyword {
            Keyword::Coordinate => {
                if sole_unknown_exec(args) {
                    this.meta.coordinate_order = None;
                    Ok(this)
                } else {
                    match coords_of_exec(args) {
                        Ok(v) => { this.meta.coordinate_order = Some(v); Ok(this) },
                        Err(e) => Err(e),
                    }
                }
            },
            Keyword::Hierarchy => {
                if sole_unknown_exec(args) {
                    this.meta.hierarchy_order = None;
                    Ok(this)
                } else {
                    match texts_of_exec(args) {
                        Ok(v) => { this.meta.hierarchy_order = Some(v); Ok(this) },
                        Err(e) => Err(e),
                    }
                }
            },
            Keyword::Alphabet => {
                if sole_unknown_exec(args) {
                    this.meta.alphabet = None;
                    Ok(this)
                } else {
                    match texts_of_exec(args) {
                        Ok(v) => { this.meta.alphabet = Some(v); Ok(this) },
                        Err(e) => Err(e),
                    }
                }
            },
            Keyword::AlphabetFreq => {
                if sole_unknown_exec(args) {
                    this.meta.alphabet_frequency = None;
                    Ok(this)
                } else {
                    match ints_of_exec(args) {
                        Ok(v) => { this.meta.alphabet_frequency = Some(v); Ok(this) },
                        Err(e) => Err(e),
                    }
                }
            },
            _ => {
                proof {
                    assert(false);
                }
                Err(UniPenError::Translation(TranslationKind::ArgumentShape))
            },
        }
    }

    #[verifier::rlimit(100)]
    fn list_statement_layout(self, statement: &Statement) -> (r: Result<UniPenBuilder, UniPenError>)
        requires
            statement@.keyword == Keyword::Lexicon
                || statement@.keyword == Keyword::LexiconFreq
                || statement@.keyword == Keyword::HLine
                || statement@.keyword == Keyword::VLine,
        ensures
            match r {
                Ok(b2) => spec_step(self@, statement@) == Ok::<UniPenBuilderView, UniPenError>(b2@),
                Err(e) => spec_step(self@, statement@) == Err::<UniPenBuilderView, UniPenError>(e),
            },
    {
        let mut this = self;
        let args = &statement.arguments;
        proof {
            assert(statement@.arguments == args@.map_values(|a: StatementArgument| a@));
        }
        match statement.keyword {
            Keyword::Lexicon => {
                if sole_unknown_exec(args) {
                    this.meta.lexicon = None;
                    Ok(this)
                } else {
                    match texts_of_exec(args) {
                        Ok(v) => { this.meta.lexicon = Some(v); Ok(this) },
                        Err(e) => Err(e),
                    }
                }
            },
            Keyword::LexiconFreq => {
                if sole_unknown_exec(args) {
                    this.meta.lexicon_frequency = None;
                    Ok(this)
                } else {
                    match ints_of_exec(args) {
                        Ok(v) => { this.meta.lexicon_frequency = Some(v); Ok(this) },
                        Err(e) => Err(e),
                    }
                }
            },
            Keyword::HLine => {
                if sole_unknown_exec(args) {
                    this.meta.h_lines = None;
                    Ok(this)
                } else {
                    match ints_of_exec(args) {
                        Ok(v) => { this.meta.h_lines = Some(v); Ok(this) },
                        Err(e) => Err(e),
                    }
                }
            },
            Keyword::VLine => {
                if sole_unknown_exec(args) {
                    this.meta.v_lines = None;
                    Ok(this)
                } else {
                    match ints_of_exec(args) {
                        Ok(v) => { this.meta.v_lines = Some(v); Ok(this) },
                        Err(e) => Err(e),
                    }
                }
            },
            _ => {
                proof {
                    assert(false);
                }
                Err(UniPenError::Translation(TranslationKind::ArgumentShape))
            },
        }
    }

    #[verifier::rlimit(100)]
    fn list_statement_writer(self, statement: &Statement) -> (r: Result<UniPenBuilder, UniPenError>)
        requires
            statement@.keyword == Keyword::Style
                || statement@.keyword == Keyword::Hand
                || statement@.keyword == Keyword::Sex
                || statement@.keyword == Keyword::Skill,
        ensures
            match r {
                Ok(b2) => spec_step(self@, statement@) == Ok::<UniPenBuilderView, UniPenError>(b2@),
                Err(e) => spec_step(self@, statement@) == Err::<UniPenBuilderView, UniPenError>(e),
            },
    {
        let mut this = self;
        let args = &statement.arguments;
        proof {
            assert(statement@.arguments == args@.map_values(|a: StatementArgument| a@));
        }
        match statement.keyword {
            Keyword::Style => match take_reserved(args) {
                Err(e) => Err(e),
                Ok(None) => { this.meta.style = None; Ok(this) },
                Ok(Some(rw)) => match Style::try_from(&rw) {
                    Ok(v) => { this.meta.style = Some(v); Ok(this) },
                    Err(e) => Err(e),
                },
            },
            Keyword::Hand => match take_reserved(args) {
                Err(e) => Err(e),
                Ok(None) => { this.meta.hand = None; Ok(this) },
                Ok(Some(rw)) => match Hand::try_from(&rw) {
                    Ok(v) => { this.meta.hand = Some(v); Ok(this) },
                    Err(e) => Err(e),
                },
            },
            Keyword::Sex => match take_reserved(args) {
                Err(e) => Err(e),
                Ok(None) => { this.meta.sex = None; Ok(this) },
                Ok(Some(rw)) => match Sex::try_from(&rw) {
                    Ok(v) => { this.meta.sex = Some(v); Ok(this) },
                    Err(e) => Err(e),
                },
            },
            Keyword::Skill => match take_reserved(args) {
                Err(e) => Err(e),
                Ok(None) => { this.meta.skill = None; Ok(this) },
                Ok(Some(rw)) => match Skill::try_from(&rw) {
                    Ok(v) => { this.meta.skill = Some(v); Ok(this) },
                    Err(e) => Err(e),
                },
            },
            _ => {
                proof {
                    assert(false);
                }
                Err(UniPenError::Translation(TranslationKind::ArgumentShape))
            },
        }
    }

    /// Folds one statement into the builder: the exact transition is
    /// `spec_step`, and well-formedness is preserved.
    #[verifier::rlimit(100)]
    pub fn statement(self, statement: &Statement) -> (r: Result<UniPenBuilder, UniPenError>)
        ensures
            match r {
                Ok(b2) => spec_step(self@, statement@) == Ok::<UniPenBuilderView, UniPenError>(b2@)
                    && (self@.wf() ==> b2@.wf()),
                Err(e) => spec_step(self@, statement@) == Err::<UniPenBuilderView, UniPenError>(e),
            },
    {
        let ghost bv = self@;
        let mut this = self;
        let args = &statement.arguments;
        proof {
            assert(statement@.arguments == args@.map_values(|a: StatementArgument| a@));
        }
        match statement.keyword {
            Keyword::Inclusion => {
                if args.len() == 0 {
                    return Err(UniPenError::Translation(TranslationKind::MissingArgument));
                }
                proof {
                    assert(statement@.arguments[0] == args@[0]@);
                }
                match &args[0] {
                    StatementArgument::String(name) => {
                        let ghost old_stack = this.file_stack@.map_values(|f: Vec<char>| f@);
                        let ghost nm = name@;
                        this.file_stack.push(copy_chars(name));
                        proof {
                            assert(this.file_stack@.map_values(|f: Vec<char>| f@)
                                =~= old_stack.push(nm));
                        }
                        if this.current.is_empty() {
                            let cur = this.current;
                            this.current = cur.name(copy_chars(name));
                        } else {
                            let cur = this.current;
                            this.current = ComponentSetBuilder::default().name(copy_chars(name));
                            this.current_time = 0;
                            let ghost old_done = this.done@.map_values(
                                |c: ComponentSetBuilder| c@,
                            );
                            let ghost cv = cur@;
                            this.done.push(cur);
                            proof {
                                assert(this.done@.map_values(|c: ComponentSetBuilder| c@)
                                    =~= old_done.push(cv));
                            }
                        }
                        Ok(this)
                    }
                    _ => Err(UniPenError::Translation(TranslationKind::ArgumentShape)),
                }
            },
            Keyword::EndOfInput => {
                if this.file_stack.len() == 0 {
                    return Err(UniPenError::Translation(TranslationKind::UnbalancedPop));
                }
                let ghost old_stack = this.file_stack@.map_values(|f: Vec<char>| f@);
                let popped = this.file_stack.pop();
                proof {
                    assert(this.file_stack@.map_values(|f: Vec<char>| f@)
                        =~= old_stack.drop_last());
                }
                Ok(this)
            },
            Keyword::PenDown => this.pen_apply(args, true),
            Keyword::PenUp => this.pen_apply(args, false),
            Keyword::Dt => {
                if args.len() == 0 {
                    return Err(UniPenError::Translation(TranslationKind::MissingArgument));
                }
                proof {
                    assert(statement@.arguments[0] == args@[0]@);
                }
                match &args[0] {
                    StatementArgument::Number(n) => {
                        let d = n.micros();
                        let has_t = match &this.meta.coordinate_order {
                            Some(order) => has_channel(order, CoordinateType::Time),
                            None => false,
                        };
                        if !has_t {
                            let nt: i128 = this.current_time as i128 + d as i128;
                            if nt > i64::MAX as i128 || nt < 0 {
                                return Err(UniPenError::Validation(ValidationKind::TimeOverflow));
                            }
                            this.current_time = nt as i64;
                        }
                        let cur = this.current;
                        this.current = cur.dt(d);
                        Ok(this)
                    }
                    _ => Err(UniPenError::Translation(TranslationKind::ArgumentShape)),
                }
            },
            Keyword::Segment => {
                if args.len() < 2 || args.len() > 4 {
                    return Err(UniPenError::Translation(TranslationKind::ArgumentShape));
                }
                proof {
                    assert(statement@.arguments[0] == args@[0]@);
                    assert(statement@.arguments[1] == args@[1]@);
                    if args@.len() > 2 {
                        assert(statement@.arguments[2] == args@[2]@);
                    }
                    if args@.len() > 3 {
                        assert(statement@.arguments[3] == args@[3]@);
                    }
                }
                let h: Vec<char>;
                let items: ComponentList;
                match (&args[0], &args[1]) {
                    (StatementArgument::String(h0), StatementArgument::List(l0)) => {
                        h = copy_chars(h0);
                        items = ComponentList(copy_vec(&l0.0));
                    }
                    _ => {
                        return Err(UniPenError::Translation(TranslationKind::ArgumentShape));
                    }
                }
                let mut quality: Option<Quality> = None;
                let mut label: Option<Vec<char>> = None;
                if args.len() == 3 {
                    match &args[2] {
                        StatementArgument::Reserved(rw) => {
                            quality = Some(
                                match Quality::try_from(rw) {
                                    Ok(q) => q,
                                    Err(e) => {
                                        return Err(e);
                                    }
                                },
                            );
                        }
                        StatementArgument::Label(l) => {
                            label = Some(copy_chars(l));
                        }
                        _ => {
                            return Err(UniPenError::Translation(TranslationKind::ArgumentShape));
                        }
                    }
                } else if args.len() == 4 {
                    match (&args[2], &args[3]) {
                        (StatementArgument::Reserved(rw), StatementArgument::Label(l)) => {
                            quality = Some(
                                match Quality::try_from(rw) {
                                    Ok(q) => q,
                                    Err(e) => {
                                        return Err(e);
                                    }
                                },
                            );
                            label = Some(copy_chars(l));
                        }
                        _ => {
                            return Err(UniPenError::Translation(TranslationKind::ArgumentShape));
                        }
                    }
                }
                let cur = this.current;
                this.current = cur.segment(h, items, quality, label);
                Ok(this)
            },
            _ => {
                return this.meta_statement(statement);
            },
        }
    }

    /// Finishes the fold: retires the active sample set when it holds
    /// coordinates, finalizes every set, and assembles the document.
    #[verifier::loop_isolation(false)]
    pub fn build(self) -> (r: Result<UniPen, UniPenError>)
        requires
            self@.wf(),
        ensures
            match r {
                Ok(u) => spec_finish(self@) == Ok::<UniPenView, UniPenError>(u@),
                Err(e) => spec_finish(self@) == Err::<UniPenView, UniPenError>(e),
            },
    {
        let ghost bv = self@;
        let ghost spec_sets = if bv.current.coordinates.len() > 0 {
            bv.done.push(bv.current)
        } else {
            bv.done
        };
        let mut sets: Vec<ComponentSet> = Vec::new();
        let n = self.done.len();
        let mut i: usize = 0;
        proof {
            assert(spec_sets.skip(0) =~= spec_sets);
            assert(sets@.map_values(|c: ComponentSet| c@) =~= Seq::<ComponentSetView>::empty());
            if let Ok(rest) = build_all(spec_sets) {
                assert(Seq::<ComponentSetView>::empty() + rest =~= rest);
            }
        }
        while i < n
            invariant
                i <= n,
                match build_all(spec_sets.skip(i as int)) {
                    Ok(rest) => build_all(spec_sets) == Ok::<Seq<ComponentSetView>, UniPenError>(
                        sets@.map_values(|c: ComponentSet| c@) + rest,
                    ),
                    Err(e) => build_all(spec_sets) == Err::<Seq<ComponentSetView>, UniPenError>(e),
                },
            decreases n - i,
        {
            proof {
                assert(spec_sets.skip(i as int).first() == bv.done[i as int]);
                assert(spec_sets.skip(i as int).drop_first() =~= spec_sets.skip(i as int + 1));
                assert(bv.done[i as int].wf());
            }
            match self.done[i].build() {
                Ok(c) => {
                    let ghost old_views = sets@.map_values(|c: ComponentSet| c@);
                    let ghost cv = c@;
                    sets.push(c);
                    proof {
                        assert(sets@.map_values(|c: ComponentSet| c@) =~= old_views.push(cv));
                        if let Ok(rest2) = build_all(spec_sets.skip(i as int + 1)) {
                            assert(old_views.push(cv) + rest2 =~= old_views + (seq![cv] + rest2));
                        }
                    }
                    i += 1;
                }
                Err(e) => {
                    return Err(e);
                }
            }
        }
        if !self.current.is_empty() {
            proof {
                assert(spec_sets.skip(n as int) =~= seq![bv.current]);
                assert(seq![bv.current].drop_first() =~= Seq::<ComponentSetBuilderView>::empty());
                assert(build_all(Seq::<ComponentSetBuilderView>::empty()) == Ok::<
                    Seq<ComponentSetView>,
                    UniPenError,
                >(Seq::empty()));
                assert(seq![bv.current].first() == bv.current);
            }
            match self.current.build() {
                Ok(c) => {
                    let ghost old_views = sets@.map_values(|c: ComponentSet| c@);
                    let ghost cv = c@;
                    sets.push(c);
                    proof {
                        assert(build_all(seq![bv.current]) == Ok::<
                            Seq<ComponentSetView>,
                            UniPenError,
                        >(seq![cv] + Seq::<ComponentSetView>::empty()));
                        assert(sets@.map_values(|c: ComponentSet| c@) =~= old_views.push(cv));
                        assert(old_views + (seq![cv] + Seq::<ComponentSetView>::empty())
                            =~= old_views.push(cv));
                    }
                }
                Err(e) => {
                    proof {
                        assert(build_all(seq![bv.current]) == Err::<
                            Seq<ComponentSetView>,
                            UniPenError,
                        >(e));
                    }
                    return Err(e);
                }
            }
        } else {
            proof {
                assert(spec_sets.skip(n as int) =~= Seq::<ComponentSetBuilderView>::empty());
                assert(build_all(Seq::<ComponentSetBuilderView>::empty()) == Ok::<
                    Seq<ComponentSetView>,
                    UniPenError,
                >(Seq::empty()));
                assert(sets@.map_values(|c: ComponentSet| c@) + Seq::<ComponentSetView>::empty()
                    =~= sets@.map_values(|c: ComponentSet| c@));
            }
        }
        let u = UniPen { metadata: self.meta, component_sets: sets };
        Ok(u)
    }
}

/// The decoded groups are exactly as many as the groups themselves.
pub proof fn lemma_groups_coords_len(
    order: Seq<CoordinateType>,
    nums: Seq<i64>,
    base: int,
    inc: int,
    g: int,
)
    ensures
        groups_coords(order, nums, base, inc, g).len() == if g <= 0 {
            0
        } else {
            g
        },
    decreases g,
{
    if g > 0 {
        lemma_groups_coords_len(order, nums, base, inc, g - 1);
    }
}


/// A stream that starts with an end-of-input marker fails at once with a
/// translation error: there is no open file to pop.
pub proof fn lemma_pop_without_push(b: UniPenBuilderView, s: StatementView)
    requires
        b.file_stack.len() == 0,
        s.keyword == Keyword::EndOfInput,
    ensures
        spec_step(b, s) == Err::<UniPenBuilderView, UniPenError>(
            UniPenError::Translation(TranslationKind::UnbalancedPop),
        ),
{
}

/// A pen statement before any coordinate-order declaration fails with the
/// validation error that names the missing declaration.
pub proof fn lemma_pen_needs_order(b: UniPenBuilderView, s: StatementView)
    requires
        b.meta.coordinate_order is None,
        s.keyword == Keyword::PenDown || s.keyword == Keyword::PenUp,
    ensures
        spec_step(b, s) == Err::<UniPenBuilderView, UniPenError>(
            UniPenError::Validation(ValidationKind::MissingCoordinateOrder),
        ),
{
}

/// A metadata statement whose sole argument is the unknown sentinel
/// resets its field without error.
#[verifier::rlimit(100)]
pub proof fn lemma_unknown_resets(b: UniPenBuilderView, s: StatementView)
    requires
        text_kw(s.keyword) || num_kw(s.keyword) || list_kw(s.keyword),
        s.arguments == seq![ArgView::Reserved(Reserved::Unknown)],
    ensures
        spec_step(b, s) is Ok,
{
    assert(s.arguments[0] == ArgView::Reserved(Reserved::Unknown));
}

/// The fold is a function of the statement stream: equal streams drive a
/// builder to equal states.
pub proof fn lemma_step_deterministic(
    b: UniPenBuilderView,
    s: StatementView,
    r1: Result<UniPenBuilderView, UniPenError>,
    r2: Result<UniPenBuilderView, UniPenError>,
)
    requires
        r1 == spec_step(b, s),
        r2 == spec_step(b, s),
    ensures
        r1 == r2,
{
}

} // verus!
