//! From a data model to its description for outside tooling.

use crate::dml;
use crate::dml::{FieldArity, FieldTypeView, IndexType, OnDeleteStrategy, ScalarType};
use crate::dmmf::{
    Datamodel, DatamodelView, Enum, EnumValue, EnumValueView, EnumView, Field, FieldView, Model,
    ModelView,
};
use crate::steps::{duplicate_strings, Diffable};
use vstd::prelude::*;
use vstd::string::StringExecFns;

verus! {

/// Whether a field type can be described: types that a connector brings and unsupported
/// types cannot.
pub open spec fn is_describable(field_type: FieldTypeView) -> bool {
    field_type is Relation || field_type is Enum || field_type is Base
}

pub open spec fn describable_model(model: dml::ModelView) -> bool {
    forall|i: int|
        0 <= i < model.fields.len() ==> is_describable((#[trigger] model.fields[i]).field_type)
}

pub open spec fn describable_schema(schema: dml::DatamodelView) -> bool {
    forall|i: int| 0 <= i < schema.models.len() ==> describable_model(#[trigger] schema.models[i])
}

pub open spec fn field_kind(field_type: FieldTypeView) -> Seq<char> {
    match field_type {
        FieldTypeView::Relation(_) => "object"@,
        FieldTypeView::Enum(_) => "enum"@,
        _ => "scalar"@,
    }
}

pub open spec fn scalar_name(scalar: ScalarType) -> Seq<char> {
    match scalar {
        ScalarType::Int => "Int"@,
        ScalarType::Float => "Float"@,
        ScalarType::Decimal => "Decimal"@,
        ScalarType::Boolean => "Boolean"@,
        ScalarType::String => "String"@,
        ScalarType::DateTime => "DateTime"@,
    }
}

pub open spec fn field_type_name(field_type: FieldTypeView) -> Seq<char> {
    match field_type {
        FieldTypeView::Relation(info) => info.to,
        FieldTypeView::Enum(name) => name,
        FieldTypeView::Unsupported(name) => name,
        FieldTypeView::Base(scalar) => scalar_name(scalar),
        FieldTypeView::ConnectorSpecific(scalar) => scalar_name(scalar),
    }
}

pub open spec fn on_delete_name(strategy: OnDeleteStrategy) -> Seq<char> {
    match strategy {
        OnDeleteStrategy::Cascade => "CASCADE"@,
        OnDeleteStrategy::Nothing => "NONE"@,
    }
}

pub open spec fn relation_name(field_type: FieldTypeView) -> Option<Seq<char>> {
    match field_type {
        FieldTypeView::Relation(info) => Some(info.name),
        _ => None,
    }
}

pub open spec fn relation_from_fields(field_type: FieldTypeView) -> Option<Seq<Seq<char>>> {
    match field_type {
        FieldTypeView::Relation(info) => Some(info.fields),
        _ => None,
    }
}

pub open spec fn relation_to_fields(field_type: FieldTypeView) -> Option<Seq<Seq<char>>> {
    match field_type {
        FieldTypeView::Relation(info) => Some(info.to_fields),
        _ => None,
    }
}

pub open spec fn relation_delete_strategy(field_type: FieldTypeView) -> Option<Seq<char>> {
    match field_type {
        FieldTypeView::Relation(info) => Some(on_delete_name(info.on_delete)),
        _ => None,
    }
}

/// The relation of `field` holds its keys in the field called `name`.
pub open spec fn relation_uses(field: dml::FieldView, name: Seq<char>) -> bool {
    field.field_type matches FieldTypeView::Relation(info) && info.fields.contains(name)
}

/// Some relation field among `fields` holds its keys in the field called `name`.
pub open spec fn some_relation_uses(fields: Seq<dml::FieldView>, name: Seq<char>) -> bool {
    exists|i: int| 0 <= i < fields.len() && relation_uses(#[trigger] fields[i], name)
}

pub open spec fn field_dmmf(model: dml::ModelView, field: dml::FieldView) -> FieldView {
    FieldView {
        name: field.name,
        kind: field_kind(field.field_type),
        is_required: field.arity == FieldArity::Required,
        is_list: field.arity == FieldArity::List,
        is_id: field.is_id,
        is_read_only: some_relation_uses(model.fields, field.name),
        has_default_value: field.has_default_value,
        is_unique: field.is_unique,
        relation_name: relation_name(field.field_type),
        relation_from_fields: relation_from_fields(field.field_type),
        relation_to_fields: relation_to_fields(field.field_type),
        relation_on_delete: relation_delete_strategy(field.field_type),
        field_type: field_type_name(field.field_type),
        is_generated: Some(field.is_generated),
        is_updated_at: Some(field.is_updated_at),
        documentation: field.documentation,
    }
}

/// The field lists of the unique indices, in order.
pub open spec fn unique_fields_of(indices: Seq<dml::IndexView>) -> Seq<Seq<Seq<char>>>
    decreases indices.len(),
{
    if indices.len() == 0 {
        Seq::empty()
    } else if indices.last().tpe == IndexType::Unique {
        unique_fields_of(indices.drop_last()).push(indices.last().fields)
    } else {
        unique_fields_of(indices.drop_last())
    }
}

pub open spec fn model_dmmf(model: dml::ModelView) -> ModelView {
    ModelView {
        name: model.name,
        is_embedded: model.is_embedded,
        db_name: model.database_name,
        fields: Seq::new(model.fields.len(), |i: int| field_dmmf(model, model.fields[i])),
        is_generated: Some(model.is_generated),
        documentation: model.documentation,
        id_fields: model.id_fields,
        unique_fields: unique_fields_of(model.indices),
    }
}

pub open spec fn enum_value_dmmf(value: dml::EnumValueView) -> EnumValueView {
    EnumValueView { name: value.name, db_name: value.database_name }
}

pub open spec fn enum_dmmf(en: dml::EnumView) -> EnumView {
    EnumView {
        name: en.name,
        values: Seq::new(en.values.len(), |i: int| enum_value_dmmf(en.values[i])),
        db_name: en.database_name,
        documentation: en.documentation,
    }
}

pub open spec fn schema_dmmf(schema: dml::DatamodelView) -> DatamodelView {
    DatamodelView {
        enums: Seq::new(schema.enums.len(), |i: int| enum_dmmf(schema.enums[i])),
        models: Seq::new(schema.models.len(), |i: int| model_dmmf(schema.models[i])),
    }
}

/// Describes a data model: its enums and its models, each in order.
pub fn schema_to_dmmf(schema: &dml::Datamodel) -> (datamodel: Datamodel)
    requires
        describable_schema(schema.deep_view()),
    ensures
        datamodel.deep_view() == schema_dmmf(schema.deep_view()),
{
    let mut datamodel = Datamodel { models: Vec::new(), enums: Vec::new() };
    let mut i: usize = 0;
    while i < schema.enums.len()
        invariant
            i <= schema.enums.len(),
            datamodel.models@.len() == 0,
            datamodel.enums@.len() == i,
            forall|k: int|
                0 <= k < i ==> (#[trigger] datamodel.enums@[k]).deep_view() == enum_dmmf(
                    schema.enums@[k].deep_view(),
                ),
        decreases schema.enums.len() - i,
    {
        datamodel.enums.push(enum_to_dmmf(&schema.enums[i]));
        i = i + 1;
    }
    let mut j: usize = 0;
    while j < schema.models.len()
        invariant
            j <= schema.models.len(),
            describable_schema(schema.deep_view()),
            datamodel.models@.len() == j,
            datamodel.enums@.len() == schema.enums@.len(),
            forall|k: int|
                0 <= k < schema.enums@.len() ==> (#[trigger] datamodel.enums@[k]).deep_view()
                    == enum_dmmf(schema.enums@[k].deep_view()),
            forall|k: int|
                0 <= k < j ==> (#[trigger] datamodel.models@[k]).deep_view() == model_dmmf(
                    schema.models@[k].deep_view(),
                ),
        decreases schema.models.len() - j,
    {
        assert(describable_model(schema.deep_view().models[j as int]));
        datamodel.models.push(model_to_dmmf(&schema.models[j]));
        j = j + 1;
    }
    assert(datamodel.deep_view().enums =~= schema_dmmf(schema.deep_view()).enums);
    assert(datamodel.deep_view().models =~= schema_dmmf(schema.deep_view()).models);
    datamodel
}

/// Describes an enum with its values, in order.

pub fn enum_to_dmmf(en: &dml::Enum) -> (enm: Enum)
    ensures
        enm.deep_view() == enum_dmmf(en.deep_view()),
{
    let mut enm = Enum {
        name: en.name.clone(),
        values: Vec::new(),
        db_name: en.database_name.duplicate(),
        documentation: en.documentation.duplicate(),
    };
    let mut i: usize = 0;
    while i < en.values.len()
        invariant
            i <= en.values.len(),
            enm.name@ == en.name@,
            enm.db_name.deep_view() == en.database_name.deep_view(),
            enm.documentation.deep_view() == en.documentation.deep_view(),
            enm.values@.len() == i,
            forall|k: int|
                0 <= k < i ==> (#[trigger] enm.values@[k]).deep_view() == enum_value_dmmf(
                    en.values@[k].deep_view(),
                ),
        decreases en.values.len() - i,
    {
        enm.values.push(enum_value_to_dmmf(&en.values[i]));
        i = i + 1;
    }
    assert(enm.deep_view().values =~= enum_dmmf(en.deep_view()).values);
    enm
}

/// Describes a value of an enum.

pub fn enum_value_to_dmmf(en: &dml::EnumValue) -> (value: EnumValue)
    ensures
        value.deep_view() == enum_value_dmmf(en.deep_view()),
{
    EnumValue { name: en.name.clone(), db_name: en.database_name.duplicate() }
}

/// The field lists of the unique indices of a model.
pub fn unique_fields(indices: &Vec<dml::IndexDefinition>) -> (unique: Vec<Vec<String>>)
    ensures
        unique.deep_view() == unique_fields_of(indices.deep_view()),
{
    let mut unique: Vec<Vec<String>> = Vec::new();
    let mut i: usize = 0;
    while i < indices.len()
        invariant
            i <= indices.len(),
            unique.deep_view() == unique_fields_of(indices.deep_view().take(i as int)),
        decreases indices.len() - i,
    {
        proof {
            crate::names::lemma_take_step(indices.deep_view(), i as int);
        }
        if indices[i].tpe == IndexType::Unique {
            let ghost before = unique.deep_view();
            let fields = duplicate_strings(&indices[i].fields);
            unique.push(fields);
            assert(unique.deep_view() =~= before.push(indices@[i as int].fields.deep_view()));
        }
        i = i + 1;
    }
    proof {
        crate::names::lemma_take_all(indices.deep_view());
    }
    unique
}

/// Describes a model: its fields in order, and the field lists of its unique indices.

pub fn model_to_dmmf(model: &dml::Model) -> (described: Model)
    requires
        describable_model(model.deep_view()),
    ensures
        described.deep_view() == model_dmmf(model.deep_view()),
{
    let mut fields: Vec<Field> = Vec::new();
    let mut i: usize = 0;
    while i < model.fields.len()
        invariant
            i <= model.fields.len(),
            describable_model(model.deep_view()),
            fields@.len() == i,
            forall|k: int|
                0 <= k < i ==> (#[trigger] fields@[k]).deep_view() == field_dmmf(
                    model.deep_view(),
                    model.fields@[k].deep_view(),
                ),
        decreases model.fields.len() - i,
    {
        assert(is_describable(model.deep_view().fields[i as int].field_type));
        fields.push(field_to_dmmf(model, &model.fields[i]));
        i = i + 1;
    }
    let described = Model {
        name: model.name.clone(),
        db_name: model.database_name.duplicate(),
        is_embedded: model.is_embedded,
        fields,
        is_generated: Some(model.is_generated),
        documentation: model.documentation.duplicate(),
        id_fields: duplicate_strings(&model.id_fields),
        unique_fields: unique_fields(&model.indices),
    };
    assert(described.deep_view().fields =~= model_dmmf(model.deep_view()).fields);
    described
}

/// Whether one of `items` is `text`.
pub fn contains_text(items: &Vec<String>, text: &String) -> (found: bool)
    ensures
        found == items.deep_view().contains(text@),
{
    let mut i: usize = 0;
    while i < items.len()
        invariant
            i <= items.len(),
            forall|k: int| 0 <= k < i ==> items.deep_view()[k] != text@,
        decreases items.len() - i,
    {
        if items[i] == *text {
            assert(items.deep_view()[i as int] == text@);
            return true;
        }
        i = i + 1;
    }
    false
}

/// Whether a relation field of the model holds its keys in the field called `name`.
pub fn is_relation_key(model: &dml::Model, name: &String) -> (used: bool)
    ensures
        used == some_relation_uses(model.deep_view().fields, name@),
{
    let mut i: usize = 0;
    while i < model.fields.len()
        invariant
            i <= model.fields.len(),
            forall|k: int|
                0 <= k < i ==> !relation_uses(#[trigger] model.deep_view().fields[k], name@),
        decreases model.fields.len() - i,
    {
        let uses = match &model.fields[i].field_type {
            dml::FieldType::Relation(rel_info) => contains_text(&rel_info.fields, name),
            _ => false,
        };
        assert(uses == relation_uses(model.deep_view().fields[i as int], name@));
        if uses {
            return true;
        }
        i = i + 1;
    }
    false
}

/// Describes a field of a model. A field is read-only where a relation of the model holds its

/// keys in it.

pub fn field_to_dmmf(model: &dml::Model, field: &dml::Field) -> (described: Field)
    requires
        is_describable(field.deep_view().field_type),
    ensures
        described.deep_view() == field_dmmf(model.deep_view(), field.deep_view()),
{
    let a_relation_field_is_based_on_this_field: bool = is_relation_key(model, &field.name);
    Field {
        name: field.name.clone(),
        kind: get_field_kind(field),
        is_required: field.arity == FieldArity::Required,
        is_list: field.arity == FieldArity::List,
        is_id: field.is_id,
        is_read_only: a_relation_field_is_based_on_this_field,
        has_default_value: field.default_value.is_some(),
        is_unique: field.is_unique,
        relation_name: get_relation_name(field),
        relation_from_fields: get_relation_from_fields(field),
        relation_to_fields: get_relation_to_fields(field),
        relation_on_delete: get_relation_delete_strategy(field),
        field_type: get_field_type(field),
        is_generated: Some(field.is_generated),
        is_updated_at: Some(field.is_updated_at),
        documentation: field.documentation.duplicate(),
    }
}

/// The kind of a field: `object` for a relation, `enum` for an enum, `scalar` for a scalar.

pub fn get_field_kind(field: &dml::Field) -> (kind: String)
    requires
        is_describable(field.deep_view().field_type),
    ensures
        kind@ == field_kind(field.deep_view().field_type),
{
    match field.field_type {
        dml::FieldType::Relation(_) => String::from_str("object"),
        dml::FieldType::Enum(_) => String::from_str("enum"),
        _ => String::from_str("scalar"),
    }
}

/// The name of the type of a field: the model a relation leads to, the enum, or the scalar.

pub fn get_field_type(field: &dml::Field) -> (name: String)
    ensures
        name@ == field_type_name(field.deep_view().field_type),
{
    match &field.field_type {
        dml::FieldType::Relation(relation_info) => relation_info.to.clone(),
        dml::FieldType::Enum(t) => t.clone(),
        dml::FieldType::Unsupported(t) => t.clone(),
        dml::FieldType::Base(t, _) => type_to_string(t),
        dml::FieldType::ConnectorSpecific(sft) => type_to_string(&sft.prisma_type()),
    }
}

/// The name of a scalar type.

pub fn type_to_string(scalar: &ScalarType) -> (name: String)
    ensures
        name@ == scalar_name(*scalar),
{
    match scalar {
        ScalarType::Int => String::from_str("Int"),
        ScalarType::Float => String::from_str("Float"),
        ScalarType::Decimal => String::from_str("Decimal"),
        ScalarType::Boolean => String::from_str("Boolean"),
        ScalarType::String => String::from_str("String"),
        ScalarType::DateTime => String::from_str("DateTime"),
    }
}

/// The name of the relation of a relation field.

pub fn get_relation_name(field: &dml::Field) -> (name: Option<String>)
    ensures
        name.deep_view() == relation_name(field.deep_view().field_type),
{
    match &field.field_type {
        dml::FieldType::Relation(relation_info) => Some(relation_info.name.clone()),
        _ => None,
    }
}

/// The fields in which a relation field holds its keys.

pub fn get_relation_from_fields(field: &dml::Field) -> (fields: Option<Vec<String>>)
    ensures
        fields.deep_view() == relation_from_fields(field.deep_view().field_type),
{
    match &field.field_type {
        dml::FieldType::Relation(relation_info) => Some(duplicate_strings(&relation_info.fields)),
        _ => None,
    }
}

/// The fields that the keys of a relation field refer to.

pub fn get_relation_to_fields(field: &dml::Field) -> (fields: Option<Vec<String>>)
    ensures
        fields.deep_view() == relation_to_fields(field.deep_view().field_type),
{
    match &field.field_type {
        dml::FieldType::Relation(relation_info) => Some(
            duplicate_strings(&relation_info.to_fields),
        ),
        _ => None,
    }
}

/// What a relation field does when the record it leads to is deleted.

pub fn get_relation_delete_strategy(field: &dml::Field) -> (strategy: Option<String>)
    ensures
        strategy.deep_view() == relation_delete_strategy(field.deep_view().field_type),
{
    match &field.field_type {
        dml::FieldType::Relation(relation_info) => Some(
            match relation_info.on_delete {
                OnDeleteStrategy::Cascade => String::from_str("CASCADE"),
                OnDeleteStrategy::Nothing => String::from_str("NONE"),
            },
        ),
        _ => None,
    }
}

} // verus!
