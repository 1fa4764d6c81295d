use schema_migrate::ast::{
    Argument, Directive, Enum, EnumValue, Expression, Field, FieldArity, Identifier, Model,
    SchemaAst, Top,
};
use schema_migrate::datamodel_calculator::{apply_step, infer, schema_by_names, SchemaByName};
use schema_migrate::datamodel_differ::diff;
use schema_migrate::named_entries::{NamedEntries, Present};
use schema_migrate::steps::{
    CreateDirective, CreateDirectiveArgument, CreateEnum, CreateField, CreateModel,
    DeleteDirectiveArgument, DeleteEnum, DeleteField, Diffable, DirectiveLocation,
    DirectiveLocator, MigrationExpression, MigrationStep, UpdateEnum, UpdateField, UpdateModel,
};

fn named(name: &str) -> Identifier {
    Identifier { name: name.to_string() }
}

fn with_argument(name: &str, argument_name: &str, value: Expression) -> Directive {
    Directive { name: named(name), arguments: vec![Argument { name: named(argument_name), value }] }
}

fn bare(name: &str) -> Directive {
    Directive { name: named(name), arguments: vec![] }
}

fn string(text: &str) -> Expression {
    Expression::StringValue(text.to_string())
}

fn numeric(text: &str) -> Expression {
    Expression::NumericValue(text.to_string())
}

fn column(name: &str, tpe: &str, arity: FieldArity, directives: Vec<Directive>) -> Field {
    Field { field_type: named(tpe), name: named(name), arity, directives }
}

fn table(name: &str, fields: Vec<Field>, directives: Vec<Directive>) -> Top {
    Top::Model(Model { name: named(name), fields, directives })
}

fn choice(name: &str, values: &[&str], directives: Vec<Directive>) -> Top {
    Top::Enum(Enum {
        name: named(name),
        values: values.iter().map(|value| EnumValue { name: value.to_string() }).collect(),
        directives,
    })
}

fn before_schema() -> SchemaAst {
    SchemaAst {
        tops: vec![
            table(
                "User",
                vec![
                    column("id", "Int", FieldArity::Required, vec![bare("id")]),
                    column(
                        "age",
                        "Int",
                        FieldArity::Required,
                        vec![with_argument("default", "", numeric("1")), with_argument("map", "", string("years"))],
                    ),
                    column("nick", "String", FieldArity::Optional, vec![bare("unique")]),
                ],
                vec![with_argument("map", "", string("users"))],
            ),
            choice("Color", &["RED", "BLUE"], vec![with_argument("map", "", string("colors"))]),
            table("Post", vec![column("id", "Int", FieldArity::Required, vec![])], vec![]),
            choice("Mood", &["GOOD"], vec![]),
        ],
    }
}

fn after_schema() -> SchemaAst {
    SchemaAst {
        tops: vec![
            choice("Size", &["S", "M"], vec![bare("internal")]),
            choice("Color", &["GREEN", "RED"], vec![with_argument("map", "", string("colours"))]),
            table(
                "User",
                vec![
                    column(
                        "age",
                        "String",
                        FieldArity::Optional,
                        vec![with_argument("map", "name", string("years")), with_argument("default", "", numeric("2"))],
                    ),
                    column("email", "String", FieldArity::Required, vec![bare("unique")]),
                    column("id", "Int", FieldArity::Required, vec![bare("id")]),
                ],
                vec![bare("internal")],
            ),
            table(
                "Blog",
                vec![column("title", "String", FieldArity::Required, vec![with_argument("default", "", string("x"))])],
                vec![with_argument("index", "fields", Expression::Array(vec![string("title")]))],
            ),
        ],
    }
}

#[test]
fn replaying_a_diff_gives_the_next_schema() {
    let previous = before_schema();
    let next = after_schema();

    let steps = diff(&previous, &next);
    let replayed = infer(schema_by_names(&previous), &steps);

    assert!(replayed.same(&schema_by_names(&next)));
    assert!(!schema_by_names(&previous).same(&schema_by_names(&next)));

    let back = infer(schema_by_names(&next), &diff(&next, &previous));
    assert!(back.same(&schema_by_names(&previous)));

    let from_nothing = infer(SchemaByName::empty(), &diff(&SchemaAst { tops: vec![] }, &next));
    assert!(from_nothing.same(&schema_by_names(&next)));
    let to_nothing = infer(schema_by_names(&previous), &diff(&previous, &SchemaAst { tops: vec![] }));
    assert!(to_nothing.same(&SchemaByName::empty()));
}

#[test]
fn the_order_of_declarations_does_not_count() {
    let mut shuffled = before_schema();
    shuffled.tops.reverse();
    if let Top::Model(user) = &mut shuffled.tops[3] {
        user.fields.reverse();
    }
    assert!(schema_by_names(&shuffled).same(&schema_by_names(&before_schema())));
    assert_eq!(diff(&shuffled, &before_schema()), vec![]);
}

fn enum_directive(name: &str) -> DirectiveLocator {
    DirectiveLocator {
        location: DirectiveLocation::Enum { enum_name: "Color".to_string() },
        name: name.to_string(),
    }
}

#[test]
fn steps_on_enums_are_replayed() {
    let schema = SchemaByName::empty();
    let schema = apply_step(
        schema,
        &MigrationStep::CreateEnum(CreateEnum {
            name: "Color".to_string(),
            values: vec!["RED".to_string(), "BLUE".to_string(), "RED".to_string()],
        }),
    );
    let color = schema.enums.get(&"Color".to_string()).unwrap();
    assert!(color.values.contains(&"RED".to_string()) && color.values.contains(&"BLUE".to_string()));
    assert!(color.values.same(&NamedEntries::new().insert("BLUE".to_string(), Present).insert("RED".to_string(), Present)));
    assert!(color.directives.same(&NamedEntries::new()));

    let schema = apply_step(schema, &MigrationStep::CreateDirective(CreateDirective { locator: enum_directive("map") }));
    let schema = apply_step(
        schema,
        &MigrationStep::CreateDirectiveArgument(CreateDirectiveArgument {
            directive_location: enum_directive("map"),
            argument_name: "".to_string(),
            argument_value: MigrationExpression("\"colors\"".to_string()),
        }),
    );
    let schema = apply_step(
        schema,
        &MigrationStep::CreateDirectiveArgument(CreateDirectiveArgument {
            directive_location: enum_directive("missing"),
            argument_name: "".to_string(),
            argument_value: MigrationExpression("1".to_string()),
        }),
    );
    let schema = apply_step(
        schema,
        &MigrationStep::UpdateEnum(UpdateEnum {
            name: "Color".to_string(),
            new_name: Some("Colour".to_string()),
            created_values: vec!["GREEN".to_string()],
            deleted_values: vec!["BLUE".to_string(), "PINK".to_string()],
        }),
    );
    assert!(!schema.enums.contains(&"Color".to_string()));
    let colour = schema.enums.get(&"Colour".to_string()).unwrap();
    assert!(colour.values.contains(&"RED".to_string()) && colour.values.contains(&"GREEN".to_string()));
    assert!(!colour.values.contains(&"BLUE".to_string()) && !colour.values.contains(&"PINK".to_string()));
    assert!(!colour.directives.contains(&"missing".to_string()));
    let map = colour.directives.get(&"map".to_string()).unwrap();
    assert_eq!(map.get(&"".to_string()), Some(&"\"colors\"".to_string()));

    let unchanged = apply_step(
        schema.duplicate(),
        &MigrationStep::UpdateEnum(UpdateEnum {
            name: "Color".to_string(),
            new_name: None,
            created_values: vec!["X".to_string()],
            deleted_values: vec![],
        }),
    );
    assert!(unchanged.same(&schema));

    let schema = apply_step(schema, &MigrationStep::DeleteEnum(DeleteEnum { name: "Colour".to_string() }));
    assert!(schema.same(&SchemaByName::empty()));
}

fn field_directive(name: &str) -> DirectiveLocator {
    DirectiveLocator {
        location: DirectiveLocation::Field { model: "User".to_string(), field: "age".to_string() },
        name: name.to_string(),
    }
}

#[test]
fn steps_on_models_and_fields_are_replayed() {
    let create_age = MigrationStep::CreateField(CreateField {
        model: "User".to_string(),
        name: "age".to_string(),
        tpe: "Int".to_string(),
        arity: FieldArity::Required,
        db_name: None,
        default: Some(MigrationExpression("1".to_string())),
    });
    let without_model = apply_step(SchemaByName::empty(), &create_age);
    assert!(without_model.same(&SchemaByName::empty()));

    let steps = vec![
        MigrationStep::CreateModel(CreateModel { name: "User".to_string(), db_name: None, embedded: false }),
        create_age,
        MigrationStep::CreateDirective(CreateDirective { locator: field_directive("map") }),
        MigrationStep::CreateDirectiveArgument(CreateDirectiveArgument {
            directive_location: field_directive("map"),
            argument_name: "".to_string(),
            argument_value: MigrationExpression("\"years\"".to_string()),
        }),
        MigrationStep::CreateDirectiveArgument(CreateDirectiveArgument {
            directive_location: field_directive("map"),
            argument_name: "x".to_string(),
            argument_value: MigrationExpression("1".to_string()),
        }),
        MigrationStep::DeleteDirectiveArgument(DeleteDirectiveArgument {
            directive_location: field_directive("map"),
            argument_name: "x".to_string(),
        }),
        MigrationStep::UpdateField(UpdateField {
            model: "User".to_string(),
            name: "age".to_string(),
            new_name: None,
            tpe: Some("String".to_string()),
            arity: None,
            default: Some(None),
        }),
    ];
    let schema = infer(SchemaByName::empty(), &steps);
    let user = schema.models.get(&"User".to_string()).unwrap();
    let age = user.fields.get(&"age".to_string()).unwrap();
    assert_eq!(age.tpe, "String");
    assert_eq!(age.arity, FieldArity::Required);
    assert_eq!(age.default, None);
    let map = age.directives.get(&"map".to_string()).unwrap();
    assert!(!map.contains(&"x".to_string()));
    assert_eq!(map.get(&"".to_string()), Some(&"\"years\"".to_string()));

    let declared = SchemaAst {
        tops: vec![table(
            "User",
            vec![column("age", "String", FieldArity::Required, vec![with_argument("map", "", string("years"))])],
            vec![],
        )],
    };
    assert!(schema.same(&schema_by_names(&declared)));

    let renamed = apply_step(
        schema,
        &MigrationStep::UpdateModel(UpdateModel {
            name: "User".to_string(),
            new_name: Some("Person".to_string()),
            db_name: None,
            embedded: None,
        }),
    );
    assert!(renamed.models.contains(&"Person".to_string()) && !renamed.models.contains(&"User".to_string()));
    let emptied = apply_step(
        renamed,
        &MigrationStep::DeleteField(DeleteField { model: "Person".to_string(), name: "age".to_string() }),
    );
    assert!(emptied.models.get(&"Person".to_string()).unwrap().fields.same(&NamedEntries::new()));
}

#[test]
fn named_entries_hold_each_name_once() {
    let entries: NamedEntries<String> = NamedEntries::new();
    assert!(!entries.contains(&"a".to_string()));
    let entries = entries.insert("a".to_string(), "1".to_string());
    let entries = entries.insert("b".to_string(), "2".to_string());
    let entries = entries.insert("a".to_string(), "3".to_string());
    assert_eq!(entries.get(&"a".to_string()), Some(&"3".to_string()));
    assert_eq!(entries.get(&"b".to_string()), Some(&"2".to_string()));
    assert_eq!(entries.get(&"c".to_string()), None);
    assert!(entries.contains(&"b".to_string()) && !entries.contains(&"B".to_string()));

    let other: NamedEntries<String> = NamedEntries::new();
    let other = other.insert("b".to_string(), "2".to_string()).insert("a".to_string(), "3".to_string());
    assert!(entries.same(&other) && other.same(&entries));
    assert!(entries.same(&entries.duplicate()));
    let changed = other.insert("a".to_string(), "4".to_string());
    assert!(!entries.same(&changed));

    let (rest, taken) = entries.remove(&"a".to_string());
    assert_eq!(taken, Some("3".to_string()));
    assert!(!rest.contains(&"a".to_string()) && rest.contains(&"b".to_string()));
    assert!(!rest.same(&changed) && !changed.same(&rest));
    let (rest, taken) = rest.remove(&"a".to_string());
    assert_eq!(taken, None);
    assert_eq!(rest.get(&"b".to_string()), Some(&"2".to_string()));
}
