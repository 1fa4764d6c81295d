use schema_migrate::dml;
use schema_migrate::dmmf;
use schema_migrate::dmmf::to_dmmf::{
    enum_to_dmmf, field_to_dmmf, get_field_kind, get_field_type, get_relation_delete_strategy,
    get_relation_from_fields, get_relation_name, get_relation_to_fields, model_to_dmmf,
    schema_to_dmmf, type_to_string,
};

fn dml_field(name: &str, field_type: dml::FieldType) -> dml::Field {
    dml::Field {
        name: name.to_string(),
        arity: dml::FieldArity::Required,
        field_type,
        database_name: None,
        default_value: None,
        is_unique: false,
        is_id: false,
        documentation: None,
        is_generated: false,
        is_updated_at: false,
    }
}

fn relation_to_user() -> dml::FieldType {
    dml::FieldType::Relation(dml::RelationInfo {
        to: "User".to_string(),
        fields: vec!["author_id".to_string()],
        to_fields: vec!["id".to_string()],
        name: "PostToUser".to_string(),
        on_delete: dml::OnDeleteStrategy::Cascade,
    })
}

fn post_model() -> dml::Model {
    let mut id = dml_field("id", dml::FieldType::Base(dml::ScalarType::Int, None));
    id.is_id = true;
    id.default_value = Some("autoincrement()".to_string());
    let mut tags = dml_field("tags", dml::FieldType::Base(dml::ScalarType::String, None));
    tags.arity = dml::FieldArity::List;
    let mut mood = dml_field("mood", dml::FieldType::Enum("Mood".to_string()));
    mood.arity = dml::FieldArity::Optional;
    mood.documentation = Some("how it felt".to_string());
    dml::Model {
        name: "Post".to_string(),
        fields: vec![
            id,
            dml_field("author_id", dml::FieldType::Base(dml::ScalarType::Int, None)),
            dml_field("author", relation_to_user()),
            tags,
            mood,
        ],
        documentation: Some("a post".to_string()),
        database_name: Some("posts".to_string()),
        is_embedded: false,
        indices: vec![
            dml::IndexDefinition {
                name: None,
                fields: vec!["author_id".to_string(), "mood".to_string()],
                tpe: dml::IndexType::Unique,
            },
            dml::IndexDefinition { name: None, fields: vec!["tags".to_string()], tpe: dml::IndexType::Normal },
            dml::IndexDefinition {
                name: Some("m".to_string()),
                fields: vec!["mood".to_string()],
                tpe: dml::IndexType::Unique,
            },
        ],
        id_fields: vec!["id".to_string()],
        is_generated: true,
    }
}

fn described(name: &str, kind: &str, field_type: &str) -> dmmf::Field {
    dmmf::Field {
        name: name.to_string(),
        kind: kind.to_string(),
        is_required: true,
        is_list: false,
        is_id: false,
        is_read_only: false,
        has_default_value: false,
        is_unique: false,
        relation_name: None,
        relation_from_fields: None,
        relation_to_fields: None,
        relation_on_delete: None,
        field_type: field_type.to_string(),
        is_generated: Some(false),
        is_updated_at: Some(false),
        documentation: None,
    }
}

#[test]
fn a_model_is_described_field_by_field() {
    let model = post_model();

    let described_model = model_to_dmmf(&model);

    let mut id = described("id", "scalar", "Int");
    id.is_id = true;
    id.has_default_value = true;
    let mut author_id = described("author_id", "scalar", "Int");
    author_id.is_read_only = true;
    let mut author = described("author", "object", "User");
    author.relation_name = Some("PostToUser".to_string());
    author.relation_from_fields = Some(vec!["author_id".to_string()]);
    author.relation_to_fields = Some(vec!["id".to_string()]);
    author.relation_on_delete = Some("CASCADE".to_string());
    let mut tags = described("tags", "scalar", "String");
    tags.is_required = false;
    tags.is_list = true;
    let mut mood = described("mood", "enum", "Mood");
    mood.is_required = false;
    mood.documentation = Some("how it felt".to_string());
    assert_eq!(
        described_model,
        dmmf::Model {
            name: "Post".to_string(),
            is_embedded: false,
            db_name: Some("posts".to_string()),
            fields: vec![id, author_id, author, tags, mood],
            is_generated: Some(true),
            documentation: Some("a post".to_string()),
            id_fields: vec!["id".to_string()],
            unique_fields: vec![vec!["author_id".to_string(), "mood".to_string()], vec!["mood".to_string()]],
        }
    );
    assert_eq!(field_to_dmmf(&model, &model.fields[1]), described_model.fields[1]);
}

#[test]
fn a_schema_is_described_enums_and_models() {
    let mood = dml::Enum {
        name: "Mood".to_string(),
        values: vec![
            dml::EnumValue { name: "GOOD".to_string(), database_name: Some("good".to_string()) },
            dml::EnumValue { name: "BAD".to_string(), database_name: None },
        ],
        database_name: Some("moods".to_string()),
        documentation: None,
    };
    let schema = dml::Datamodel { enums: vec![mood.clone()], models: vec![post_model()] };

    let datamodel = schema_to_dmmf(&schema);

    let described_enum = dmmf::Enum {
        name: "Mood".to_string(),
        values: vec![
            dmmf::EnumValue { name: "GOOD".to_string(), db_name: Some("good".to_string()) },
            dmmf::EnumValue { name: "BAD".to_string(), db_name: None },
        ],
        db_name: Some("moods".to_string()),
        documentation: None,
    };
    assert_eq!(enum_to_dmmf(&mood), described_enum);
    assert_eq!(datamodel.enums, vec![described_enum]);
    assert_eq!(datamodel.models, vec![model_to_dmmf(&post_model())]);
    assert_eq!(
        schema_to_dmmf(&dml::Datamodel { enums: vec![], models: vec![] }),
        dmmf::Datamodel { enums: vec![], models: vec![] }
    );
}

#[test]
fn field_types_are_named() {
    let scalars = [
        (dml::ScalarType::Int, "Int"),
        (dml::ScalarType::Float, "Float"),
        (dml::ScalarType::Decimal, "Decimal"),
        (dml::ScalarType::Boolean, "Boolean"),
        (dml::ScalarType::String, "String"),
        (dml::ScalarType::DateTime, "DateTime"),
    ];
    for (scalar, name) in scalars.iter() {
        assert_eq!(type_to_string(scalar), *name);
        assert_eq!(get_field_type(&dml_field("x", dml::FieldType::Base(*scalar, None))), *name);
    }
    assert_eq!(get_field_type(&dml_field("x", relation_to_user())), "User");
    assert_eq!(get_field_type(&dml_field("x", dml::FieldType::Enum("Mood".to_string()))), "Mood");
    assert_eq!(get_field_type(&dml_field("x", dml::FieldType::Unsupported("point".to_string()))), "point");
    let specific = dml::ScalarFieldType { name: "BigInt".to_string(), prisma_type: dml::ScalarType::Int };
    assert_eq!(get_field_type(&dml_field("x", dml::FieldType::ConnectorSpecific(specific))), "Int");

    assert_eq!(get_field_kind(&dml_field("x", relation_to_user())), "object");
    assert_eq!(get_field_kind(&dml_field("x", dml::FieldType::Enum("Mood".to_string()))), "enum");
    assert_eq!(get_field_kind(&dml_field("x", dml::FieldType::Base(dml::ScalarType::Int, None))), "scalar");
}

#[test]
fn only_relation_fields_have_relation_facts() {
    let relation = dml_field("author", relation_to_user());
    let scalar = dml_field("id", dml::FieldType::Base(dml::ScalarType::Int, None));
    assert_eq!(get_relation_name(&relation), Some("PostToUser".to_string()));
    assert_eq!(get_relation_from_fields(&relation), Some(vec!["author_id".to_string()]));
    assert_eq!(get_relation_to_fields(&relation), Some(vec!["id".to_string()]));
    assert_eq!(get_relation_delete_strategy(&relation), Some("CASCADE".to_string()));
    assert_eq!(get_relation_name(&scalar), None);
    assert_eq!(get_relation_from_fields(&scalar), None);
    assert_eq!(get_relation_to_fields(&scalar), None);
    assert_eq!(get_relation_delete_strategy(&scalar), None);

    let mut kept = relation_to_user();
    if let dml::FieldType::Relation(info) = &mut kept {
        info.on_delete = dml::OnDeleteStrategy::Nothing;
    }
    assert_eq!(get_relation_delete_strategy(&dml_field("author", kept)), Some("NONE".to_string()));
}
