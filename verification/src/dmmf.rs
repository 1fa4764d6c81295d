//! The description of a data model that is handed to outside tooling.

pub mod to_dmmf;

use vstd::prelude::*;

verus! {

#[derive(Clone, Debug, PartialEq, Eq)]
pub struct Field {
    pub name: String,
    pub kind: String,
    pub is_required: bool,
    pub is_list: bool,
    pub is_id: bool,
    pub is_read_only: bool,
    pub has_default_value: bool,
    pub is_unique: bool,
    pub relation_name: Option<String>,
    pub relation_from_fields: Option<Vec<String>>,
    pub relation_to_fields: Option<Vec<String>>,
    pub relation_on_delete: Option<String>,
    pub field_type: String,
    pub is_generated: Option<bool>,
    pub is_updated_at: Option<bool>,
    pub documentation: Option<String>,
}

pub struct FieldView {
    pub name: Seq<char>,
    pub kind: Seq<char>,
    pub is_required: bool,
    pub is_list: bool,
    pub is_id: bool,
    pub is_read_only: bool,
    pub has_default_value: bool,
    pub is_unique: bool,
    pub relation_name: Option<Seq<char>>,
    pub relation_from_fields: Option<Seq<Seq<char>>>,
    pub relation_to_fields: Option<Seq<Seq<char>>>,
    pub relation_on_delete: Option<Seq<char>>,
    pub field_type: Seq<char>,
    pub is_generated: Option<bool>,
    pub is_updated_at: Option<bool>,
    pub documentation: Option<Seq<char>>,
}

impl DeepView for Field {
    type V = FieldView;

    open spec fn deep_view(&self) -> FieldView {
        FieldView {
            name: self.name@,
            kind: self.kind@,
            is_required: self.is_required,
            is_list: self.is_list,
            is_id: self.is_id,
            is_read_only: self.is_read_only,
            has_default_value: self.has_default_value,
            is_unique: self.is_unique,
            relation_name: self.relation_name.deep_view(),
            relation_from_fields: self.relation_from_fields.deep_view(),
            relation_to_fields: self.relation_to_fields.deep_view(),
            relation_on_delete: self.relation_on_delete.deep_view(),
            field_type: self.field_type@,
            is_generated: self.is_generated,
            is_updated_at: self.is_updated_at,
            documentation: self.documentation.deep_view(),
        }
    }
}

#[derive(Clone, Debug, PartialEq, Eq)]
pub struct Model {
    pub name: String,
    pub is_embedded: bool,
    pub db_name: Option<String>,
    pub fields: Vec<Field>,
    pub is_generated: Option<bool>,
    pub documentation: Option<String>,
    pub id_fields: Vec<String>,
    pub unique_fields: Vec<Vec<String>>,
}

pub struct ModelView {
    pub name: Seq<char>,
    pub is_embedded: bool,
    pub db_name: Option<Seq<char>>,
    pub fields: Seq<FieldView>,
    pub is_generated: Option<bool>,
    pub documentation: Option<Seq<char>>,
    pub id_fields: Seq<Seq<char>>,
    pub unique_fields: Seq<Seq<Seq<char>>>,
}

impl DeepView for Model {
    type V = ModelView;

    open spec fn deep_view(&self) -> ModelView {
        ModelView {
            name: self.name@,
            is_embedded: self.is_embedded,
            db_name: self.db_name.deep_view(),
            fields: self.fields.deep_view(),
            is_generated: self.is_generated,
            documentation: self.documentation.deep_view(),
            id_fields: self.id_fields.deep_view(),
            unique_fields: self.unique_fields.deep_view(),
        }
    }
}

#[derive(Clone, Debug, PartialEq, Eq)]
pub struct EnumValue {
    pub name: String,
    pub db_name: Option<String>,
}

pub struct EnumValueView {
    pub name: Seq<char>,
    pub db_name: Option<Seq<char>>,
}

impl DeepView for EnumValue {
    type V = EnumValueView;

    open spec fn deep_view(&self) -> EnumValueView {
        EnumValueView { name: self.name@, db_name: self.db_name.deep_view() }
    }
}

#[derive(Clone, Debug, PartialEq, Eq)]
pub struct Enum {
    pub name: String,
    pub values: Vec<EnumValue>,
    pub db_name: Option<String>,
    pub documentation: Option<String>,
}

pub struct EnumView {
    pub name: Seq<char>,
    pub values: Seq<EnumValueView>,
    pub db_name: Option<Seq<char>>,
    pub documentation: Option<Seq<char>>,
}

impl DeepView for Enum {
    type V = EnumView;

    open spec fn deep_view(&self) -> EnumView {
        EnumView {
            name: self.name@,
            values: self.values.deep_view(),
            db_name: self.db_name.deep_view(),
            documentation: self.documentation.deep_view(),
        }
    }
}

#[derive(Clone, Debug, PartialEq, Eq)]
pub struct Datamodel {
    pub enums: Vec<Enum>,
    pub models: Vec<Model>,
}

pub struct DatamodelView {
    pub enums: Seq<EnumView>,
    pub models: Seq<ModelView>,
}

impl DeepView for Datamodel {
    type V = DatamodelView;

    open spec fn deep_view(&self) -> DatamodelView {
        DatamodelView { enums: self.enums.deep_view(), models: self.models.deep_view() }
    }
}

} // verus!
