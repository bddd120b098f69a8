//! The data model: descriptions of an enumeration's variants as the planner
//! and the emitter consume them, and the transition tables they produce.
//!
//! Every executable type here has a mathematical model (its view), and the
//! contracts of the library speak of those models.

use vstd::prelude::*;
use vstd::string::StringExecFns;

verus! {

// ---------------------------------------------------------------------------
// Mathematical models
// ---------------------------------------------------------------------------

/// Model of a named field: the field's name and the name of its type.
pub struct FieldModel {
    pub name: Seq<char>,
    pub ty: Seq<char>,
}

/// Model of the data attached to a variant: none, positional fields given by
/// their type names in order, or named fields.
pub enum ShapeModel {
    Unit,
    Positional(Seq<Seq<char>>),
    Named(Seq<FieldModel>),
}

/// Model of one variant descriptor.
pub struct VariantModel {
    pub name: Seq<char>,
    pub shape: ShapeModel,
    pub excluded: bool,
}

/// Model of the data of a target type.
pub enum DataModel {
    Enum(Seq<VariantModel>),
    Struct,
    Union,
}

/// Model of a whole target type description.
pub struct TargetModel {
    pub target_name: Seq<char>,
    pub generics: Seq<char>,
    pub data: DataModel,
    pub cycle_order: Option<Seq<Seq<char>>>,
}

/// Model of a rejection raised while deriving.
pub enum ErrorModel {
    UnsupportedTarget,
    InsufficientVariants,
    UnresolvedCycleName(Seq<char>),
}

/// Model of the placeholder data a transition builds for its target: for a
/// positional target, the type whose default fills each slot, in order; for
/// a named target, each field's name and the type whose default fills it.
pub enum PayloadModel {
    Unit,
    Positional(Seq<Seq<char>>),
    Named(Seq<FieldModel>),
}

/// Model of a constructed variant value: the target's name and the
/// placeholder data built for it.
pub struct ValueModel {
    pub name: Seq<char>,
    pub payload: PayloadModel,
}

/// Model of the outcome a transition assigns to one source variant.
pub enum OutcomeModel {
    Go(ValueModel),
    Reject(Direction),
}

/// Model of one arm of a transition table.
pub struct ArmModel {
    pub source: Seq<char>,
    pub outcome: OutcomeModel,
}

/// Model of a whole transition table.
pub struct TableModel {
    pub direction: Direction,
    pub arms: Seq<ArmModel>,
}

/// Model of a completed derivation.
pub struct DerivationModel {
    pub target_name: Seq<char>,
    pub generics: Seq<char>,
    pub up: TableModel,
    pub down: TableModel,
}

// ---------------------------------------------------------------------------
// Executable types
// ---------------------------------------------------------------------------

/// The direction of a transition.
#[derive(Clone, Copy, Debug, PartialEq, Eq)]
pub enum Direction {
    Up,
    Down,
}

/// A named field of a variant: its name and the name of its type.
#[derive(Debug, PartialEq, Eq)]
pub struct NamedField {
    pub name: String,
    pub ty: String,
}

/// The shape of the data attached to a variant.
#[derive(Debug, PartialEq, Eq)]
pub enum FieldShape {
    Unit,
    Positional(Vec<String>),
    Named(Vec<NamedField>),
}

/// One variant of the target enumeration: its name, the shape of its data,
/// and whether it is excluded from the cycle.
#[derive(Debug, PartialEq, Eq)]
pub struct VariantDescriptor {
    pub name: String,
    pub shape: FieldShape,
    pub excluded: bool,
}

/// The data of the target type: the ordered variants of an enumeration, or
/// the mark that the target is no enumeration at all.
#[derive(Debug, PartialEq, Eq)]
pub enum TargetData {
    Enum(Vec<VariantDescriptor>),
    Struct,
    Union,
}

/// Everything the derivation reads of a target type: its name, its generic
/// parameters (threaded through unchanged), its data, and the optional
/// override of the cycle order.
#[derive(Debug, PartialEq, Eq)]
pub struct TargetDescription {
    pub target_name: String,
    pub generics: String,
    pub data: TargetData,
    pub cycle_order: Option<Vec<String>>,
}

/// A rejection raised while deriving, before any table is produced.
#[derive(Debug, PartialEq, Eq)]
pub enum DeriveError {
    /// The target is not an enumeration.
    UnsupportedTarget,
    /// Fewer than two variants take part in the cycle.
    InsufficientVariants,
    /// The override order is not an exact reordering of the variants that
    /// take part in the cycle; the offending name is carried.
    UnresolvedCycleName(String),
}

/// The default value of the named type, used as placeholder data.
#[derive(Debug, PartialEq, Eq)]
pub struct Placeholder {
    pub ty: String,
}

/// A named field together with the placeholder that fills it.
#[derive(Debug, PartialEq, Eq)]
pub struct NamedInit {
    pub field: String,
    pub value: Placeholder,
}

/// The placeholder data a transition builds for its target variant.
#[derive(Debug, PartialEq, Eq)]
pub enum Payload {
    Unit,
    Positional(Vec<Placeholder>),
    Named(Vec<NamedInit>),
}

/// A constructed variant value: the target's name and its placeholder data.
#[derive(Debug, PartialEq, Eq)]
pub struct VariantValue {
    pub name: String,
    pub payload: Payload,
}

/// What a transition does on one source variant: construct the neighbouring
/// variant, or reject the call naming the direction attempted.
#[derive(Debug, PartialEq, Eq)]
pub enum Outcome {
    Go(VariantValue),
    Reject(Direction),
}

/// One arm of a transition table: a source variant and its outcome.
#[derive(Debug, PartialEq, Eq)]
pub struct Arm {
    pub source: String,
    pub outcome: Outcome,
}

/// A total transition table for one direction: one arm per declared variant,
/// in declaration order.
#[derive(Debug, PartialEq, Eq)]
pub struct TransitionTable {
    pub direction: Direction,
    pub arms: Vec<Arm>,
}

/// A completed derivation: the target's identity and the two tables.
#[derive(Debug, PartialEq, Eq)]
pub struct Derivation {
    pub target_name: String,
    pub generics: String,
    pub up: TransitionTable,
    pub down: TransitionTable,
}

// ---------------------------------------------------------------------------
// Views
// ---------------------------------------------------------------------------

impl View for NamedField {
    type V = FieldModel;

    open spec fn view(&self) -> FieldModel {
        FieldModel { name: self.name@, ty: self.ty@ }
    }
}

impl DeepView for NamedField {
    type V = FieldModel;

    open spec fn deep_view(&self) -> FieldModel {
        self.view()
    }
}

impl View for FieldShape {
    type V = ShapeModel;

    open spec fn view(&self) -> ShapeModel {
        match self {
            FieldShape::Unit => ShapeModel::Unit,
            FieldShape::Positional(tys) => ShapeModel::Positional(tys.deep_view()),
            FieldShape::Named(fields) => ShapeModel::Named(fields.deep_view()),
        }
    }
}

impl View for VariantDescriptor {
    type V = VariantModel;

    open spec fn view(&self) -> VariantModel {
        VariantModel { name: self.name@, shape: self.shape@, excluded: self.excluded }
    }
}

impl DeepView for VariantDescriptor {
    type V = VariantModel;

    open spec fn deep_view(&self) -> VariantModel {
        self.view()
    }
}

impl View for TargetData {
    type V = DataModel;

    open spec fn view(&self) -> DataModel {
        match self {
            TargetData::Enum(variants) => DataModel::Enum(variants.deep_view()),
            TargetData::Struct => DataModel::Struct,
            TargetData::Union => DataModel::Union,
        }
    }
}

impl View for TargetDescription {
    type V = TargetModel;

    open spec fn view(&self) -> TargetModel {
        TargetModel {
            target_name: self.target_name@,
            generics: self.generics@,
            data: self.data@,
            cycle_order: self.cycle_order.deep_view(),
        }
    }
}

impl View for DeriveError {
    type V = ErrorModel;

    open spec fn view(&self) -> ErrorModel {
        match self {
            DeriveError::UnsupportedTarget => ErrorModel::UnsupportedTarget,
            DeriveError::InsufficientVariants => ErrorModel::InsufficientVariants,
            DeriveError::UnresolvedCycleName(name) => ErrorModel::UnresolvedCycleName(name@),
        }
    }
}

impl View for Placeholder {
    type V = Seq<char>;

    open spec fn view(&self) -> Seq<char> {
        self.ty@
    }
}

impl DeepView for Placeholder {
    type V = Seq<char>;

    open spec fn deep_view(&self) -> Seq<char> {
        self.ty@
    }
}

impl View for NamedInit {
    type V = FieldModel;

    open spec fn view(&self) -> FieldModel {
        FieldModel { name: self.field@, ty: self.value.ty@ }
    }
}

impl DeepView for NamedInit {
    type V = FieldModel;

    open spec fn deep_view(&self) -> FieldModel {
        self.view()
    }
}

impl View for Payload {
    type V = PayloadModel;

    open spec fn view(&self) -> PayloadModel {
        match self {
            Payload::Unit => PayloadModel::Unit,
            Payload::Positional(values) => PayloadModel::Positional(values.deep_view()),
            Payload::Named(inits) => PayloadModel::Named(inits.deep_view()),
        }
    }
}

impl View for VariantValue {
    type V = ValueModel;

    open spec fn view(&self) -> ValueModel {
        ValueModel { name: self.name@, payload: self.payload@ }
    }
}

impl View for Outcome {
    type V = OutcomeModel;

    open spec fn view(&self) -> OutcomeModel {
        match self {
            Outcome::Go(value) => OutcomeModel::Go(value@),
            Outcome::Reject(direction) => OutcomeModel::Reject(*direction),
        }
    }
}

impl View for Arm {
    type V = ArmModel;

    open spec fn view(&self) -> ArmModel {
        ArmModel { source: self.source@, outcome: self.outcome@ }
    }
}

impl DeepView for Arm {
    type V = ArmModel;

    open spec fn deep_view(&self) -> ArmModel {
        self.view()
    }
}

impl View for TransitionTable {
    type V = TableModel;

    open spec fn view(&self) -> TableModel {
        TableModel { direction: self.direction, arms: self.arms.deep_view() }
    }
}

impl View for Derivation {
    type V = DerivationModel;

    open spec fn view(&self) -> DerivationModel {
        DerivationModel {
            target_name: self.target_name@,
            generics: self.generics@,
            up: self.up@,
            down: self.down@,
        }
    }
}

// ---------------------------------------------------------------------------
// Describing a rejection
// ---------------------------------------------------------------------------

/// The description of a rejection, naming the offending identifier where
/// there is one.
pub open spec fn error_text(e: ErrorModel) -> Seq<char> {
    match e {
        ErrorModel::UnsupportedTarget => "This macro only supports enums."@,
        ErrorModel::InsufficientVariants => (
        "EnumCycle requires that the enum have at least 2 non-skipped variants."@),
        ErrorModel::UnresolvedCycleName(x) => "No matching variant found for "@ + x + "."@,
    }
}

impl DeriveError {
    /// Describes this rejection, naming the offending identifier where
    /// there is one.
    pub fn message(&self) -> (r: String)
        ensures
            r@ == error_text(self@),
    {
        match self {
            DeriveError::UnsupportedTarget => "This macro only supports enums.".to_owned(),
            DeriveError::InsufficientVariants => {
                "EnumCycle requires that the enum have at least 2 non-skipped variants.".to_owned()
            },
            DeriveError::UnresolvedCycleName(name) => {
                let mut s = "No matching variant found for ".to_owned();
                s.append(name.as_str());
                s.append(".");
                s
            },
        }
    }
}

// ---------------------------------------------------------------------------
// Cloning, preserving the model
// ---------------------------------------------------------------------------

impl Clone for NamedField {
    fn clone(&self) -> (r: Self)
        ensures
            r@ == self@,
    {
        NamedField { name: self.name.clone(), ty: self.ty.clone() }
    }
}

impl Clone for FieldShape {
    fn clone(&self) -> (r: Self)
        ensures
            r@ == self@,
    {
        match self {
            FieldShape::Unit => FieldShape::Unit,
            FieldShape::Positional(tys) => FieldShape::Positional(clone_strings(tys)),
            FieldShape::Named(fields) => FieldShape::Named(clone_named_fields(fields)),
        }
    }
}

impl Clone for VariantDescriptor {
    fn clone(&self) -> (r: Self)
        ensures
            r@ == self@,
    {
        VariantDescriptor {
            name: self.name.clone(),
            shape: self.shape.clone(),
            excluded: self.excluded,
        }
    }
}

/// Clones a list of strings, keeping its contents.
pub fn clone_strings(v: &Vec<String>) -> (r: Vec<String>)
    ensures
        r@ == v@,
        r.deep_view() == v.deep_view(),
{
    let mut out: Vec<String> = Vec::new();
    let mut i: usize = 0;
    while i < v.len()
        invariant
            i <= v.len(),
            out@ =~= v@.take(i as int),
        decreases v.len() - i,
    {
        out.push(v[i].clone());
        i = i + 1;
    }
    proof {
        assert(out@ =~= v@);
        assert(out.deep_view() =~= v.deep_view());
    }
    out
}

/// Clones a list of named fields, keeping its model.
pub fn clone_named_fields(v: &Vec<NamedField>) -> (r: Vec<NamedField>)
    ensures
        r.deep_view() == v.deep_view(),
{
    let mut out: Vec<NamedField> = Vec::new();
    let mut i: usize = 0;
    while i < v.len()
        invariant
            i <= v.len(),
            out.len() == i,
            forall|j: int| 0 <= j < i ==> out@[j]@ == v@[j]@,
        decreases v.len() - i,
    {
        out.push(v[i].clone());
        i = i + 1;
    }
    proof {
        assert forall|j: int| 0 <= j < v@.len() implies out.deep_view()[j]
            == v.deep_view()[j] by {
            assert(out@[j]@ == v@[j]@);
        }
        assert(out.deep_view() =~= v.deep_view());
    }
    out
}

} // verus!
