//! The immutable domain model: coordinates, components, segments, bounding
//! boxes, sample sets, and the whole document.
//!
//! Positions and times are fixed-point values in millionths of a document
//! unit, decoded exactly from the input numerals.

use vstd::prelude::*;

use crate::error::{TranslationKind, UniPenError};
use crate::statements::Reserved;

verus! {

/// One channel of the declared coordinate order.
#[derive(Clone, Copy, Debug, PartialEq, Eq, Structural)]
pub enum CoordinateType {
    XPosition,
    YPosition,
    Time,
    Pressure,
    ZPosition,
    Button,
    Rho,
    Theta,
    Phi,
}

impl CoordinateType {
    /// The channel a reserved word declares.
    pub open spec fn spec_try_from(value: Reserved) -> Result<CoordinateType, UniPenError> {
        match value {
            Reserved::X => Ok(CoordinateType::XPosition),
            Reserved::Y => Ok(CoordinateType::YPosition),
            Reserved::Time => Ok(CoordinateType::Time),
            Reserved::Pressure => Ok(CoordinateType::Pressure),
            Reserved::Z => Ok(CoordinateType::ZPosition),
            Reserved::Button => Ok(CoordinateType::Button),
            Reserved::Rho => Ok(CoordinateType::Rho),
            Reserved::Theta => Ok(CoordinateType::Theta),
            Reserved::Phi => Ok(CoordinateType::Phi),
            _ => Err(UniPenError::Translation(TranslationKind::ArgumentShape)),
        }
    }

    /// The channel a reserved word declares; any other word is a
    /// translation error.
    pub fn try_from(value: &Reserved) -> (r: Result<CoordinateType, UniPenError>)
        ensures
            r == CoordinateType::spec_try_from(*value),
    {
        match value {
            Reserved::X => Ok(CoordinateType::XPosition),
            Reserved::Y => Ok(CoordinateType::YPosition),
            Reserved::Time => Ok(CoordinateType::Time),
            Reserved::Pressure => Ok(CoordinateType::Pressure),
            Reserved::Z => Ok(CoordinateType::ZPosition),
            Reserved::Button => Ok(CoordinateType::Button),
            Reserved::Rho => Ok(CoordinateType::Rho),
            Reserved::Theta => Ok(CoordinateType::Theta),
            Reserved::Phi => Ok(CoordinateType::Phi),
            _ => Err(UniPenError::Translation(TranslationKind::ArgumentShape)),
        }
    }
}

/// A calendar date; every part may be unknown.
#[derive(Clone, Copy, Debug, PartialEq, Eq, Structural)]
pub struct Date {
    pub month: Option<i32>,
    pub day: Option<i32>,
    pub year: Option<i32>,
}

/// The declared writing style.
#[derive(Clone, Copy, Debug, PartialEq, Eq, Structural)]
pub enum Style {
    Printed,
    Cursive,
    Mixed,
}

impl Style {
    pub open spec fn spec_try_from(value: Reserved) -> Result<Style, UniPenError> {
        match value {
            Reserved::Printed => Ok(Style::Printed),
            Reserved::Cursive => Ok(Style::Cursive),
            Reserved::Mixed => Ok(Style::Mixed),
            _ => Err(UniPenError::Translation(TranslationKind::ArgumentShape)),
        }
    }

    /// The style a reserved word names; any other word is a translation error.
    pub fn try_from(value: &Reserved) -> (r: Result<Style, UniPenError>)
        ensures
            r == Style::spec_try_from(*value),
    {
        match value {
            Reserved::Printed => Ok(Style::Printed),
            Reserved::Cursive => Ok(Style::Cursive),
            Reserved::Mixed => Ok(Style::Mixed),
            _ => Err(UniPenError::Translation(TranslationKind::ArgumentShape)),
        }
    }
}

/// The writer's hand.
#[derive(Clone, Copy, Debug, PartialEq, Eq, Structural)]
pub enum Hand {
    Left,
    Right,
}

impl Hand {
    pub open spec fn spec_try_from(value: Reserved) -> Result<Hand, UniPenError> {
        match value {
            Reserved::LeftHand => Ok(Hand::Left),
            Reserved::RightHand => Ok(Hand::Right),
            _ => Err(UniPenError::Translation(TranslationKind::ArgumentShape)),
        }
    }

    /// The hand a reserved word names; any other word is a translation error.
    pub fn try_from(value: &Reserved) -> (r: Result<Hand, UniPenError>)
        ensures
            r == Hand::spec_try_from(*value),
    {
        match value {
            Reserved::LeftHand => Ok(Hand::Left),
            Reserved::RightHand => Ok(Hand::Right),
            _ => Err(UniPenError::Translation(TranslationKind::ArgumentShape)),
        }
    }
}

/// The writer's sex.
#[derive(Clone, Copy, Debug, PartialEq, Eq, Structural)]
pub enum Sex {
    Male,
    Female,
}

impl Sex {
    pub open spec fn spec_try_from(value: Reserved) -> Result<Sex, UniPenError> {
        match value {
            Reserved::Male => Ok(Sex::Male),
            Reserved::Female => Ok(Sex::Female),
            _ => Err(UniPenError::Translation(TranslationKind::ArgumentShape)),
        }
    }

    /// The sex a reserved word names; any other word is a translation error.
    pub fn try_from(value: &Reserved) -> (r: Result<Sex, UniPenError>)
        ensures
            r == Sex::spec_try_from(*value),
    {
        match value {
            Reserved::Male => Ok(Sex::Male),
            Reserved::Female => Ok(Sex::Female),
            _ => Err(UniPenError::Translation(TranslationKind::ArgumentShape)),
        }
    }
}

/// The writer's declared skill.
#[derive(Clone, Copy, Debug, PartialEq, Eq, Structural)]
pub enum Skill {
    Bad,
    Okay,
    Good,
}

impl Skill {
    pub open spec fn spec_try_from(value: Reserved) -> Result<Skill, UniPenError> {
        match value {
            Reserved::Bad => Ok(Skill::Bad),
            Reserved::Okay => Ok(Skill::Okay),
            Reserved::Good => Ok(Skill::Good),
            _ => Err(UniPenError::Translation(TranslationKind::ArgumentShape)),
        }
    }

    /// The skill a reserved word names; any other word is a translation error.
    pub fn try_from(value: &Reserved) -> (r: Result<Skill, UniPenError>)
        ensures
            r == Skill::spec_try_from(*value),
    {
        match value {
            Reserved::Bad => Ok(Skill::Bad),
            Reserved::Okay => Ok(Skill::Okay),
            Reserved::Good => Ok(Skill::Good),
            _ => Err(UniPenError::Translation(TranslationKind::ArgumentShape)),
        }
    }
}

/// A segment's declared quality.
#[derive(Clone, Copy, Debug, PartialEq, Eq, Structural)]
pub enum Quality {
    Okay,
    Good,
}

impl Quality {
    pub open spec fn spec_try_from(value: Reserved) -> Result<Quality, UniPenError> {
        match value {
            Reserved::Okay => Ok(Quality::Okay),
            Reserved::Good => Ok(Quality::Good),
            _ => Err(UniPenError::Translation(TranslationKind::ArgumentShape)),
        }
    }

    /// The quality a reserved word names; any other word is a translation
    /// error.
    pub fn try_from(value: &Reserved) -> (r: Result<Quality, UniPenError>)
        ensures
            r == Quality::spec_try_from(*value),
    {
        match value {
            Reserved::Okay => Ok(Quality::Okay),
            Reserved::Good => Ok(Quality::Good),
            _ => Err(UniPenError::Translation(TranslationKind::ArgumentShape)),
        }
    }
}

/// An inclusive span of coordinate indices; `start <= end` wherever one
/// appears in a finished value, so a span is never empty.
#[derive(Clone, Copy, Debug, PartialEq, Eq, Structural)]
pub struct IndexRange {
    pub start: usize,
    pub end: usize,
}

/// One pen sample. Every value is in millionths of a document unit; the
/// time is the reconstructed time since the sample set began.
#[derive(Clone, Copy, Debug, PartialEq, Eq, Structural)]
pub struct Coordinate {
    pub x_position: i64,
    pub y_position: i64,
    pub time: i64,
    pub pressure: Option<i64>,
    pub z_position: Option<i64>,
    pub button: Option<i64>,
    pub rho: Option<i64>,
    pub theta: Option<i64>,
    pub phi: Option<i64>,
}

/// One component: a pen-down or pen-up run of coordinates, or a timing gap
/// of the given duration with no coordinates of its own.
#[derive(Clone, Copy, Debug, PartialEq, Eq, Structural)]
pub enum Component {
    PenDown(IndexRange),
    PenUp(IndexRange),
    Dt(i64),
}

/// A hierarchical label over resolved coordinate spans of one sample set.
#[derive(Clone, Debug, PartialEq, Eq)]
pub struct Segment {
    pub hierarchy: Vec<char>,
    pub coordinates: Vec<IndexRange>,
    pub quality: Option<Quality>,
    pub label: Option<Vec<char>>,
}

/// The mathematical value of a segment.
pub struct SegmentView {
    pub hierarchy: Seq<char>,
    pub coordinates: Seq<IndexRange>,
    pub quality: Option<Quality>,
    pub label: Option<Seq<char>>,
}

impl View for Segment {
    type V = SegmentView;

    open spec fn view(&self) -> SegmentView {
        SegmentView {
            hierarchy: self.hierarchy@,
            coordinates: self.coordinates@,
            quality: self.quality,
            label: match self.label {
                Some(l) => Some(l@),
                None => None,
            },
        }
    }
}

/// The axis-aligned extent of one segment's coordinate spans.
#[derive(Clone, Debug, PartialEq, Eq)]
pub struct BoundingBox {
    pub x_min: i64,
    pub y_min: i64,
    pub x_max: i64,
    pub y_max: i64,
    pub coordinates: Vec<IndexRange>,
}

/// The mathematical value of a bounding box.
pub struct BoundingBoxView {
    pub x_min: i64,
    pub y_min: i64,
    pub x_max: i64,
    pub y_max: i64,
    pub coordinates: Seq<IndexRange>,
}

impl View for BoundingBox {
    type V = BoundingBoxView;

    open spec fn view(&self) -> BoundingBoxView {
        BoundingBoxView {
            x_min: self.x_min,
            y_min: self.y_min,
            x_max: self.x_max,
            y_max: self.y_max,
            coordinates: self.coordinates@,
        }
    }
}

/// One named handwriting sample: its coordinates, its components, and its
/// resolved segments with their bounding boxes.
#[derive(Clone, Debug, PartialEq, Eq)]
pub struct ComponentSet {
    pub name: Vec<char>,
    pub coordinates: Vec<Coordinate>,
    pub components: Vec<Component>,
    pub segments: Vec<Segment>,
    pub bounding_boxes: Vec<BoundingBox>,
}

/// The mathematical value of a sample set.
pub struct ComponentSetView {
    pub name: Seq<char>,
    pub coordinates: Seq<Coordinate>,
    pub components: Seq<Component>,
    pub segments: Seq<SegmentView>,
    pub bounding_boxes: Seq<BoundingBoxView>,
}

impl View for ComponentSet {
    type V = ComponentSetView;

    open spec fn view(&self) -> ComponentSetView {
        ComponentSetView {
            name: self.name@,
            coordinates: self.coordinates@,
            components: self.components@,
            segments: self.segments@.map_values(|s: Segment| s@),
            bounding_boxes: self.bounding_boxes@.map_values(|b: BoundingBox| b@),
        }
    }
}

/// Document metadata; every field is unset until a statement assigns it,
/// and the unknown sentinel resets a field to unset.
#[derive(Clone, Debug, PartialEq, Eq)]
pub struct Metadata {
    pub version: Option<i64>,
    pub data_source: Option<Vec<char>>,
    pub data_id: Option<Vec<char>>,
    pub coordinate_order: Option<Vec<CoordinateType>>,
    pub hierarchy_order: Option<Vec<Vec<char>>>,
    pub alphabet: Option<Vec<Vec<char>>>,
    pub alphabet_frequency: Option<Vec<i32>>,
    pub data_contact: Option<Vec<char>>,
    pub data_info: Option<Vec<char>>,
    pub setup: Option<Vec<char>>,
    pub pad: Option<Vec<char>>,
    pub lexicon_source: Option<Vec<char>>,
    pub lexicon_id: Option<Vec<char>>,
    pub lexicon_contact: Option<Vec<char>>,
    pub lexicon_info: Option<Vec<char>>,
    pub lexicon: Option<Vec<Vec<char>>>,
    pub lexicon_frequency: Option<Vec<i32>>,
    pub x_dimension: Option<i32>,
    pub y_dimension: Option<i32>,
    pub h_lines: Option<Vec<i32>>,
    pub v_lines: Option<Vec<i32>>,
    pub x_points_per_inch: Option<i64>,
    pub y_points_per_inch: Option<i64>,
    pub z_points_per_inch: Option<i64>,
    pub x_points_per_mm: Option<i64>,
    pub y_points_per_mm: Option<i64>,
    pub z_points_per_mm: Option<i64>,
    pub points_per_gram: Option<i64>,
    pub points_per_second: Option<i64>,
    pub style: Option<Style>,
    pub writer_id: Option<Vec<char>>,
    pub country: Option<Vec<char>>,
    pub hand: Option<Hand>,
    pub age: Option<i32>,
    pub sex: Option<Sex>,
    pub skill: Option<Skill>,
    pub writer_info: Option<Vec<char>>,
}

pub open spec fn opt_chars(o: Option<Vec<char>>) -> Option<Seq<char>> {
    match o {
        Some(v) => Some(v@),
        None => None,
    }
}

pub open spec fn opt_texts(o: Option<Vec<Vec<char>>>) -> Option<Seq<Seq<char>>> {
    match o {
        Some(v) => Some(v@.map_values(|x: Vec<char>| x@)),
        None => None,
    }
}

pub open spec fn opt_ints(o: Option<Vec<i32>>) -> Option<Seq<i32>> {
    match o {
        Some(v) => Some(v@),
        None => None,
    }
}

/// The mathematical value of the metadata.
pub struct MetadataView {
    pub version: Option<i64>,
    pub data_source: Option<Seq<char>>,
    pub data_id: Option<Seq<char>>,
    pub coordinate_order: Option<Seq<CoordinateType>>,
    pub hierarchy_order: Option<Seq<Seq<char>>>,
    pub alphabet: Option<Seq<Seq<char>>>,
    pub alphabet_frequency: Option<Seq<i32>>,
    pub data_contact: Option<Seq<char>>,
    pub data_info: Option<Seq<char>>,
    pub setup: Option<Seq<char>>,
    pub pad: Option<Seq<char>>,
    pub lexicon_source: Option<Seq<char>>,
    pub lexicon_id: Option<Seq<char>>,
    pub lexicon_contact: Option<Seq<char>>,
    pub lexicon_info: Option<Seq<char>>,
    pub lexicon: Option<Seq<Seq<char>>>,
    pub lexicon_frequency: Option<Seq<i32>>,
    pub x_dimension: Option<i32>,
    pub y_dimension: Option<i32>,
    pub h_lines: Option<Seq<i32>>,
    pub v_lines: Option<Seq<i32>>,
    pub x_points_per_inch: Option<i64>,
    pub y_points_per_inch: Option<i64>,
    pub z_points_per_inch: Option<i64>,
    pub x_points_per_mm: Option<i64>,
    pub y_points_per_mm: Option<i64>,
    pub z_points_per_mm: Option<i64>,
    pub points_per_gram: Option<i64>,
    pub points_per_second: Option<i64>,
    pub style: Option<Style>,
    pub writer_id: Option<Seq<char>>,
    pub country: Option<Seq<char>>,
    pub hand: Option<Hand>,
    pub age: Option<i32>,
    pub sex: Option<Sex>,
    pub skill: Option<Skill>,
    pub writer_info: Option<Seq<char>>,
}

impl View for Metadata {
    type V = MetadataView;

    open spec fn view(&self) -> MetadataView {
        MetadataView {
            version: self.version,
            data_source: opt_chars(self.data_source),
            data_id: opt_chars(self.data_id),
            coordinate_order: match self.coordinate_order {
                Some(v) => Some(v@),
                None => None,
            },
            hierarchy_order: opt_texts(self.hierarchy_order),
            alphabet: opt_texts(self.alphabet),
            alphabet_frequency: opt_ints(self.alphabet_frequency),
            data_contact: opt_chars(self.data_contact),
            data_info: opt_chars(self.data_info),
            setup: opt_chars(self.setup),
            pad: opt_chars(self.pad),
            lexicon_source: opt_chars(self.lexicon_source),
            lexicon_id: opt_chars(self.lexicon_id),
            lexicon_contact: opt_chars(self.lexicon_contact),
            lexicon_info: opt_chars(self.lexicon_info),
            lexicon: opt_texts(self.lexicon),
            lexicon_frequency: opt_ints(self.lexicon_frequency),
            x_dimension: self.x_dimension,
            y_dimension: self.y_dimension,
            h_lines: opt_ints(self.h_lines),
            v_lines: opt_ints(self.v_lines),
            x_points_per_inch: self.x_points_per_inch,
            y_points_per_inch: self.y_points_per_inch,
            z_points_per_inch: self.z_points_per_inch,
            x_points_per_mm: self.x_points_per_mm,
            y_points_per_mm: self.y_points_per_mm,
            z_points_per_mm: self.z_points_per_mm,
            points_per_gram: self.points_per_gram,
            points_per_second: self.points_per_second,
            style: self.style,
            writer_id: opt_chars(self.writer_id),
            country: opt_chars(self.country),
            hand: self.hand,
            age: self.age,
            sex: self.sex,
            skill: self.skill,
            writer_info: opt_chars(self.writer_info),
        }
    }
}

impl Metadata {
    /// Metadata with every field unset.
    pub fn new() -> (r: Metadata)
        ensures
            r@ == Metadata::spec_unset(),
    {
        Metadata {
            version: None,
            data_source: None,
            data_id: None,
            coordinate_order: None,
            hierarchy_order: None,
            alphabet: None,
            alphabet_frequency: None,
            data_contact: None,
            data_info: None,
            setup: None,
            pad: None,
            lexicon_source: None,
            lexicon_id: None,
            lexicon_contact: None,
            lexicon_info: None,
            lexicon: None,
            lexicon_frequency: None,
            x_dimension: None,
            y_dimension: None,
            h_lines: None,
            v_lines: None,
            x_points_per_inch: None,
            y_points_per_inch: None,
            z_points_per_inch: None,
            x_points_per_mm: None,
            y_points_per_mm: None,
            z_points_per_mm: None,
            points_per_gram: None,
            points_per_second: None,
            style: None,
            writer_id: None,
            country: None,
            hand: None,
            age: None,
            sex: None,
            skill: None,
            writer_info: None,
        }
    }

    /// The view of metadata with every field unset.
    pub open spec fn spec_unset() -> MetadataView {
        MetadataView {
            version: None,
            data_source: None,
            data_id: None,
            coordinate_order: None,
            hierarchy_order: None,
            alphabet: None,
            alphabet_frequency: None,
            data_contact: None,
            data_info: None,
            setup: None,
            pad: None,
            lexicon_source: None,
            lexicon_id: None,
            lexicon_contact: None,
            lexicon_info: None,
            lexicon: None,
            lexicon_frequency: None,
            x_dimension: None,
            y_dimension: None,
            h_lines: None,
            v_lines: None,
            x_points_per_inch: None,
            y_points_per_inch: None,
            z_points_per_inch: None,
            x_points_per_mm: None,
            y_points_per_mm: None,
            z_points_per_mm: None,
            points_per_gram: None,
            points_per_second: None,
            style: None,
            writer_id: None,
            country: None,
            hand: None,
            age: None,
            sex: None,
            skill: None,
            writer_info: None,
        }
    }
}

/// The whole document: its metadata and its ordered sample sets.
#[derive(Clone, Debug, PartialEq, Eq)]
pub struct UniPen {
    pub metadata: Metadata,
    pub component_sets: Vec<ComponentSet>,
}

/// The mathematical value of a document.
pub struct UniPenView {
    pub metadata: MetadataView,
    pub component_sets: Seq<ComponentSetView>,
}

impl View for UniPen {
    type V = UniPenView;

    open spec fn view(&self) -> UniPenView {
        UniPenView {
            metadata: self.metadata@,
            component_sets: self.component_sets@.map_values(|c: ComponentSet| c@),
        }
    }
}

impl UniPen {
    /// A fresh builder that folds a statement stream into a document.
    pub fn builder() -> (r: crate::builder::UniPenBuilder)
        ensures
            r@ == crate::builder::UniPenBuilderView::spec_new(),
            r@.wf(),
    {
        crate::builder::UniPenBuilder::new()
    }
}

} // verus!
