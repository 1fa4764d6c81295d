//! The data model that a schema declares, after validation: enums and models with their
//! fields, indices and relations.

use vstd::prelude::*;

pub use crate::ast::FieldArity;

verus! {

/// The built-in scalar types.
#[derive(Clone, Copy, Debug, PartialEq, Eq, Structural)]
pub enum ScalarType {
    Int,
    Float,
    Decimal,
    Boolean,
    String,
    DateTime,
}

/// What happens to a record when the record it relates to is deleted.
#[derive(Clone, Copy, Debug, PartialEq, Eq, Structural)]
pub enum OnDeleteStrategy {
    Cascade,
    Nothing,
}

#[derive(Clone, Copy, Debug, PartialEq, Eq, Structural)]
pub enum IndexType {
    Unique,
    Normal,
}

/// A relation from one model to another.
#[derive(Clone, Debug, PartialEq, Eq)]
pub struct RelationInfo {
    pub to: String,
    pub fields: Vec<String>,
    pub to_fields: Vec<String>,
    pub name: String,
    pub on_delete: OnDeleteStrategy,
}

pub struct RelationInfoView {
    pub to: Seq<char>,
    pub fields: Seq<Seq<char>>,
    pub to_fields: Seq<Seq<char>>,
    pub name: Seq<char>,
    pub on_delete: OnDeleteStrategy,
}

impl DeepView for RelationInfo {
    type V = RelationInfoView;

    open spec fn deep_view(&self) -> RelationInfoView {
        RelationInfoView {
            to: self.to@,
            fields: self.fields.deep_view(),
            to_fields: self.to_fields.deep_view(),
            name: self.name@,
            on_delete: self.on_delete,
        }
    }
}

/// A type of one connector, with the scalar type that it stands for.
#[derive(Clone, Debug, PartialEq, Eq)]
pub struct ScalarFieldType {
    pub name: String,
    pub prisma_type: ScalarType,
}

impl ScalarFieldType {
    /// The scalar type that the connector type stands for.
    pub fn prisma_type(&self) -> (scalar: ScalarType)
        ensures
            scalar == self.prisma_type,
    {
        self.prisma_type
    }
}

#[derive(Clone, Debug, PartialEq, Eq)]
pub enum FieldType {
    Enum(String),
    Relation(RelationInfo),
    ConnectorSpecific(ScalarFieldType),
    Unsupported(String),
    Base(ScalarType, Option<String>),
}

pub enum FieldTypeView {
    Enum(Seq<char>),
    Relation(RelationInfoView),
    ConnectorSpecific(ScalarType),
    Unsupported(Seq<char>),
    Base(ScalarType),
}

impl DeepView for FieldType {
    type V = FieldTypeView;

    open spec fn deep_view(&self) -> FieldTypeView {
        match self {
            FieldType::Enum(name) => FieldTypeView::Enum(name@),
            FieldType::Relation(info) => FieldTypeView::Relation(info.deep_view()),
            FieldType::ConnectorSpecific(specific) => FieldTypeView::ConnectorSpecific(
                specific.prisma_type,
            ),
            FieldType::Unsupported(name) => FieldTypeView::Unsupported(name@),
            FieldType::Base(scalar, _) => FieldTypeView::Base(*scalar),
        }
    }
}

#[derive(Clone, Debug, PartialEq, Eq)]
pub struct Field {
    pub name: String,
    pub arity: FieldArity,
    pub field_type: FieldType,
    pub database_name: Option<String>,
    pub default_value: Option<String>,
    pub is_unique: bool,
    pub is_id: bool,
    pub documentation: Option<String>,
    pub is_generated: bool,
    pub is_updated_at: bool,
}

pub struct FieldView {
    pub name: Seq<char>,
    pub arity: FieldArity,
    pub field_type: FieldTypeView,
    pub has_default_value: bool,
    pub is_unique: bool,
    pub is_id: bool,
    pub documentation: Option<Seq<char>>,
    pub is_generated: bool,
    pub is_updated_at: bool,
}

impl DeepView for Field {
    type V = FieldView;

    open spec fn deep_view(&self) -> FieldView {
        FieldView {
            name: self.name@,
            arity: self.arity,
            field_type: self.field_type.deep_view(),
            has_default_value: self.default_value is Some,
            is_unique: self.is_unique,
            is_id: self.is_id,
            documentation: self.documentation.deep_view(),
            is_generated: self.is_generated,
            is_updated_at: self.is_updated_at,
        }
    }
}

#[derive(Clone, Debug, PartialEq, Eq)]
pub struct IndexDefinition {
    pub name: Option<String>,
    pub fields: Vec<String>,
    pub tpe: IndexType,
}

pub struct IndexView {
    pub fields: Seq<Seq<char>>,
    pub tpe: IndexType,
}

impl DeepView for IndexDefinition {
    type V = IndexView;

    open spec fn deep_view(&self) -> IndexView {
        IndexView { fields: self.fields.deep_view(), tpe: self.tpe }
    }
}

#[derive(Clone, Debug, PartialEq, Eq)]
pub struct Model {
    pub name: String,
    pub fields: Vec<Field>,
    pub documentation: Option<String>,
    pub database_name: Option<String>,
    pub is_embedded: bool,
    pub indices: Vec<IndexDefinition>,
    pub id_fields: Vec<String>,
    pub is_generated: bool,
}

pub struct ModelView {
    pub name: Seq<char>,
    pub fields: Seq<FieldView>,
    pub documentation: Option<Seq<char>>,
    pub database_name: Option<Seq<char>>,
    pub is_embedded: bool,
    pub indices: Seq<IndexView>,
    pub id_fields: Seq<Seq<char>>,
    pub is_generated: bool,
}

impl DeepView for Model {
    type V = ModelView;

    open spec fn deep_view(&self) -> ModelView {
        ModelView {
            name: self.name@,
            fields: self.fields.deep_view(),
            documentation: self.documentation.deep_view(),
            database_name: self.database_name.deep_view(),
            is_embedded: self.is_embedded,
            indices: self.indices.deep_view(),
            id_fields: self.id_fields.deep_view(),
            is_generated: self.is_generated,
        }
    }
}

#[derive(Clone, Debug, PartialEq, Eq)]
pub struct EnumValue {
    pub name: String,
    pub database_name: Option<String>,
}

pub struct EnumValueView {
    pub name: Seq<char>,
    pub database_name: Option<Seq<char>>,
}

impl DeepView for EnumValue {
    type V = EnumValueView;

    open spec fn deep_view(&self) -> EnumValueView {
        EnumValueView { name: self.name@, database_name: self.database_name.deep_view() }
    }
}

#[derive(Clone, Debug, PartialEq, Eq)]
pub struct Enum {
    pub name: String,
    pub values: Vec<EnumValue>,
    pub database_name: Option<String>,
    pub documentation: Option<String>,
}

pub struct EnumView {
    pub name: Seq<char>,
    pub values: Seq<EnumValueView>,
    pub database_name: Option<Seq<char>>,
    pub documentation: Option<Seq<char>>,
}

impl DeepView for Enum {
    type V = EnumView;

    open spec fn deep_view(&self) -> EnumView {
        EnumView {
            name: self.name@,
            values: self.values.deep_view(),
            database_name: self.database_name.deep_view(),
            documentation: self.documentation.deep_view(),
        }
    }
}

#[derive(Clone, Debug, PartialEq, Eq)]
pub struct Datamodel {
    pub enums: Vec<Enum>,
    pub models: Vec<Model>,
}

pub struct DatamodelView {
    pub enums: Seq<EnumView>,
    pub models: Seq<ModelView>,
}

impl DeepView for Datamodel {
    type V = DatamodelView;

    open spec fn deep_view(&self) -> DatamodelView {
        DatamodelView { enums: self.enums.deep_view(), models: self.models.deep_view() }
    }
}

} // verus!
