//! The vocabulary of migration steps: one create, update and delete step for each kind of
//! schema entity. An update carries only what changed: an absent attribute is unchanged.

use crate::ast::{Expression, FieldArity};
use vstd::prelude::*;

verus! {

/// A value that can be compared and copied, with both operations stated over its view.
pub trait Diffable: DeepView + Sized {
    /// Whether both values have the same view.
    fn same(&self, other: &Self) -> (same: bool)
        ensures
            same == (self.deep_view() == other.deep_view()),
    ;

    /// A copy with the same view.
    fn duplicate(&self) -> (copy: Self)
        ensures
            copy.deep_view() == self.deep_view(),
    ;
}

impl Diffable for String {
    fn same(&self, other: &Self) -> (same: bool) {
        *self == *other
    }

    fn duplicate(&self) -> (copy: Self) {
        self.clone()
    }
}

impl DeepView for FieldArity {
    type V = FieldArity;

    open spec fn deep_view(&self) -> FieldArity {
        *self
    }
}

impl Diffable for FieldArity {
    fn same(&self, other: &Self) -> (same: bool) {
        *self == *other
    }

    fn duplicate(&self) -> (copy: Self) {
        *self
    }
}

impl<T: Diffable> Diffable for Option<T> {
    fn same(&self, other: &Self) -> (same: bool) {
        match (self, other) {
            (None, None) => true,
            (Some(a), Some(b)) => a.same(b),
            _ => false,
        }
    }

    fn duplicate(&self) -> (copy: Self) {
        match self {
            None => None,
            Some(a) => Some(a.duplicate()),
        }
    }
}

/// Copies a list of strings.
pub fn duplicate_strings(items: &Vec<String>) -> (copy: Vec<String>)
    ensures
        copy.deep_view() == items.deep_view(),
{
    let mut copy: Vec<String> = Vec::new();
    let mut i: usize = 0;
    while i < items.len()
        invariant
            i <= items.len(),
            copy@.len() == i,
            forall|j: int| 0 <= j < i ==> copy@[j]@ == items@[j]@,
        decreases items.len() - i,
    {
        copy.push(items[i].clone());
        i = i + 1;
    }
    assert(copy.deep_view() =~= items.deep_view());
    copy
}

/// The text of an expression, as a step carries it.
#[derive(Debug, Clone, PartialEq, Eq)]
pub struct MigrationExpression(pub String);

impl DeepView for MigrationExpression {
    type V = Seq<char>;

    open spec fn deep_view(&self) -> Seq<char> {
        self.0@
    }
}

impl MigrationExpression {
    /// The rendering of a schema expression.
    pub fn from_ast_expression(expression: &Expression) -> (rendered: MigrationExpression)
        ensures
            rendered.deep_view() == expression.rendered(),
    {
        MigrationExpression(expression.render_to_string())
    }
}

impl Diffable for MigrationExpression {
    fn same(&self, other: &Self) -> (same: bool) {
        self.0 == other.0
    }

    fn duplicate(&self) -> (copy: Self) {
        MigrationExpression(self.0.clone())
    }
}

/// The entity that a directive is attached to.
#[derive(Debug, Clone, PartialEq, Eq)]
pub enum DirectiveLocation {
    Field { model: String, field: String },
    Model { model: String },
    Enum { enum_name: String },
}

pub enum LocationView {
    Field { model: Seq<char>, field: Seq<char> },
    Model { model: Seq<char> },
    Enum { enum_name: Seq<char> },
}

impl DeepView for DirectiveLocation {
    type V = LocationView;

    open spec fn deep_view(&self) -> LocationView {
        match self {
            DirectiveLocation::Field { model, field } => LocationView::Field {
                model: model@,
                field: field@,
            },
            DirectiveLocation::Model { model } => LocationView::Model { model: model@ },
            DirectiveLocation::Enum { enum_name } => LocationView::Enum { enum_name: enum_name@ },
        }
    }
}

impl Diffable for DirectiveLocation {
    fn same(&self, other: &Self) -> (same: bool) {
        match (self, other) {
            (
                DirectiveLocation::Field { model: m1, field: f1 },
                DirectiveLocation::Field { model: m2, field: f2 },
            ) => *m1 == *m2 && *f1 == *f2,
            (DirectiveLocation::Model { model: m1 }, DirectiveLocation::Model { model: m2 }) => *m1
                == *m2,
            (
                DirectiveLocation::Enum { enum_name: e1 },
                DirectiveLocation::Enum { enum_name: e2 },
            ) => *e1 == *e2,
            _ => false,
        }
    }

    fn duplicate(&self) -> (copy: Self) {
        match self {
            DirectiveLocation::Field { model, field } => DirectiveLocation::Field {
                model: model.clone(),
                field: field.clone(),
            },
            DirectiveLocation::Model { model } => DirectiveLocation::Model { model: model.clone() },
            DirectiveLocation::Enum { enum_name } => DirectiveLocation::Enum {
                enum_name: enum_name.clone(),
            },
        }
    }
}

/// A directive, found by the entity it is attached to and its name.
#[derive(Debug, Clone, PartialEq, Eq)]
pub struct DirectiveLocator {
    pub location: DirectiveLocation,
    pub name: String,
}

pub struct LocatorView {
    pub location: LocationView,
    pub name: Seq<char>,
}

impl DeepView for DirectiveLocator {
    type V = LocatorView;

    open spec fn deep_view(&self) -> LocatorView {
        LocatorView { location: self.location.deep_view(), name: self.name@ }
    }
}

impl Diffable for DirectiveLocator {
    fn same(&self, other: &Self) -> (same: bool) {
        self.location.same(&other.location) && self.name == other.name
    }

    fn duplicate(&self) -> (copy: Self) {
        DirectiveLocator { location: self.location.duplicate(), name: self.name.clone() }
    }
}

#[derive(Debug, Clone, PartialEq, Eq)]
pub struct CreateModel {
    pub name: String,
    pub db_name: Option<String>,
    pub embedded: bool,
}

#[derive(Debug, Clone, PartialEq, Eq)]
pub struct UpdateModel {
    pub name: String,
    pub new_name: Option<String>,
    pub db_name: Option<Option<String>>,
    pub embedded: Option<bool>,
}

#[derive(Debug, Clone, PartialEq, Eq)]
pub struct DeleteModel {
    pub name: String,
}

#[derive(Debug, Clone, PartialEq, Eq)]
pub struct CreateField {
    pub model: String,
    pub name: String,
    pub tpe: String,
    pub arity: FieldArity,
    pub db_name: Option<String>,
    pub default: Option<MigrationExpression>,
}

#[derive(Debug, Clone, PartialEq, Eq)]
pub struct UpdateField {
    pub model: String,
    pub name: String,
    pub new_name: Option<String>,
    pub tpe: Option<String>,
    pub arity: Option<FieldArity>,
    pub default: Option<Option<MigrationExpression>>,
}

#[derive(Debug, Clone, PartialEq, Eq)]
pub struct DeleteField {
    pub model: String,
    pub name: String,
}

#[derive(Debug, Clone, PartialEq, Eq)]
pub struct CreateEnum {
    pub name: String,
    pub values: Vec<String>,
}

#[derive(Debug, Clone, PartialEq, Eq)]
pub struct UpdateEnum {
    pub name: String,
    pub new_name: Option<String>,
    pub created_values: Vec<String>,
    pub deleted_values: Vec<String>,
}

#[derive(Debug, Clone, PartialEq, Eq)]
pub struct DeleteEnum {
    pub name: String,
}

#[derive(Debug, Clone, PartialEq, Eq)]
pub struct CreateDirective {
    pub locator: DirectiveLocator,
}

#[derive(Debug, Clone, PartialEq, Eq)]
pub struct DeleteDirective {
    pub locator: DirectiveLocator,
}

#[derive(Debug, Clone, PartialEq, Eq)]
pub struct CreateDirectiveArgument {
    pub directive_location: DirectiveLocator,
    pub argument_name: String,
    pub argument_value: MigrationExpression,
}

#[derive(Debug, Clone, PartialEq, Eq)]
pub struct UpdateDirectiveArgument {
    pub directive_location: DirectiveLocator,
    pub argument_name: String,
    pub new_argument_value: MigrationExpression,
}

#[derive(Debug, Clone, PartialEq, Eq)]
pub struct DeleteDirectiveArgument {
    pub directive_location: DirectiveLocator,
    pub argument_name: String,
}

/// One atomic change between two versions of a schema.
#[derive(Debug, Clone, PartialEq, Eq)]
pub enum MigrationStep {
    CreateModel(CreateModel),
    UpdateModel(UpdateModel),
    DeleteModel(DeleteModel),
    CreateDirective(CreateDirective),
    DeleteDirective(DeleteDirective),
    CreateDirectiveArgument(CreateDirectiveArgument),
    UpdateDirectiveArgument(UpdateDirectiveArgument),
    DeleteDirectiveArgument(DeleteDirectiveArgument),
    CreateField(CreateField),
    DeleteField(DeleteField),
    UpdateField(UpdateField),
    CreateEnum(CreateEnum),
    UpdateEnum(UpdateEnum),
    DeleteEnum(DeleteEnum),
}

/// A migration step as a mathematical value.
#[allow(inconsistent_fields)]
pub enum StepView {
    CreateModel { name: Seq<char>, db_name: Option<Seq<char>>, embedded: bool },
    UpdateModel {
        name: Seq<char>,
        new_name: Option<Seq<char>>,
        db_name: Option<Option<Seq<char>>>,
        embedded: Option<bool>,
    },
    DeleteModel { name: Seq<char> },
    CreateDirective { locator: LocatorView },
    DeleteDirective { locator: LocatorView },
    CreateDirectiveArgument {
        locator: LocatorView,
        argument_name: Seq<char>,
        argument_value: Seq<char>,
    },
    UpdateDirectiveArgument {
        locator: LocatorView,
        argument_name: Seq<char>,
        new_argument_value: Seq<char>,
    },
    DeleteDirectiveArgument { locator: LocatorView, argument_name: Seq<char> },
    CreateField {
        model: Seq<char>,
        name: Seq<char>,
        tpe: Seq<char>,
        arity: FieldArity,
        db_name: Option<Seq<char>>,
        default: Option<Seq<char>>,
    },
    DeleteField { model: Seq<char>, name: Seq<char> },
    UpdateField {
        model: Seq<char>,
        name: Seq<char>,
        new_name: Option<Seq<char>>,
        tpe: Option<Seq<char>>,
        arity: Option<FieldArity>,
        default: Option<Option<Seq<char>>>,
    },
    CreateEnum { name: Seq<char>, values: Seq<Seq<char>> },
    UpdateEnum {
        name: Seq<char>,
        new_name: Option<Seq<char>>,
        created_values: Seq<Seq<char>>,
        deleted_values: Seq<Seq<char>>,
    },
    DeleteEnum { name: Seq<char> },
}

impl UpdateModel {
    pub open spec fn any_option_set(&self) -> bool {
        self.new_name is Some || self.embedded is Some || self.db_name is Some
    }

    /// Whether the step changes anything.
    pub fn is_any_option_set(&self) -> (set: bool)
        ensures
            set == self.any_option_set(),
    {
        self.new_name.is_some() || self.embedded.is_some() || self.db_name.is_some()
    }
}

impl UpdateField {
    pub open spec fn any_option_set(&self) -> bool {
        self.new_name is Some || self.arity is Some || self.tpe is Some || self.default is Some
    }

    /// Whether the step changes anything.
    pub fn is_any_option_set(&self) -> (set: bool)
        ensures
            set == self.any_option_set(),
    {
        self.new_name.is_some() || self.arity.is_some() || self.tpe.is_some()
            || self.default.is_some()
    }
}

impl UpdateEnum {
    pub open spec fn any_option_set(&self) -> bool {
        self.new_name is Some || self.created_values@.len() > 0 || self.deleted_values@.len() > 0
    }

    /// Whether the step changes anything.
    pub fn is_any_option_set(&self) -> (set: bool)
        ensures
            set == self.any_option_set(),
    {
        self.new_name.is_some() || !self.created_values.is_empty()
            || !self.deleted_values.is_empty()
    }
}

impl DeepView for MigrationStep {
    type V = StepView;

    open spec fn deep_view(&self) -> StepView {
        match self {
            MigrationStep::CreateModel(s) => StepView::CreateModel {
                name: s.name@,
                db_name: s.db_name.deep_view(),
                embedded: s.embedded,
            },
            MigrationStep::UpdateModel(s) => StepView::UpdateModel {
                name: s.name@,
                new_name: s.new_name.deep_view(),
                db_name: s.db_name.deep_view(),
                embedded: s.embedded,
            },
            MigrationStep::DeleteModel(s) => StepView::DeleteModel { name: s.name@ },
            MigrationStep::CreateDirective(s) => StepView::CreateDirective {
                locator: s.locator.deep_view(),
            },
            MigrationStep::DeleteDirective(s) => StepView::DeleteDirective {
                locator: s.locator.deep_view(),
            },
            MigrationStep::CreateDirectiveArgument(s) => StepView::CreateDirectiveArgument {
                locator: s.directive_location.deep_view(),
                argument_name: s.argument_name@,
                argument_value: s.argument_value.deep_view(),
            },
            MigrationStep::UpdateDirectiveArgument(s) => StepView::UpdateDirectiveArgument {
                locator: s.directive_location.deep_view(),
                argument_name: s.argument_name@,
                new_argument_value: s.new_argument_value.deep_view(),
            },
            MigrationStep::DeleteDirectiveArgument(s) => StepView::DeleteDirectiveArgument {
                locator: s.directive_location.deep_view(),
                argument_name: s.argument_name@,
            },
            MigrationStep::CreateField(s) => StepView::CreateField {
                model: s.model@,
                name: s.name@,
                tpe: s.tpe@,
                arity: s.arity,
                db_name: s.db_name.deep_view(),
                default: s.default.deep_view(),
            },
            MigrationStep::DeleteField(s) => StepView::DeleteField { model: s.model@, name: s.name@ },
            MigrationStep::UpdateField(s) => StepView::UpdateField {
                model: s.model@,
                name: s.name@,
                new_name: s.new_name.deep_view(),
                tpe: s.tpe.deep_view(),
                arity: s.arity,
                default: s.default.deep_view(),
            },
            MigrationStep::CreateEnum(s) => StepView::CreateEnum {
                name: s.name@,
                values: s.values.deep_view(),
            },
            MigrationStep::UpdateEnum(s) => StepView::UpdateEnum {
                name: s.name@,
                new_name: s.new_name.deep_view(),
                created_values: s.created_values.deep_view(),
                deleted_values: s.deleted_values.deep_view(),
            },
            MigrationStep::DeleteEnum(s) => StepView::DeleteEnum { name: s.name@ },
        }
    }
}

/// Appends one step.
pub fn push_step(steps: &mut Vec<MigrationStep>, step: MigrationStep)
    ensures
        final(steps).deep_view() == old(steps).deep_view().push(step.deep_view()),
{
    steps.push(step);
    assert(steps.deep_view() =~= old(steps).deep_view().push(step.deep_view()));
}

} // verus!
