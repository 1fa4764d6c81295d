use schema_migrate::ast::{
    Argument, Directive, Enum, EnumValue, Expression, Field, FieldArity, Identifier, Model,
    SchemaAst, Top,
};
use schema_migrate::datamodel_differ::directives::get_directive_string_value;
use schema_migrate::datamodel_differ::{
    diff, diff_value, push_created_directive, push_updated_directive_argument,
};
use schema_migrate::steps::{
    CreateDirective, CreateDirectiveArgument, CreateEnum, CreateField, CreateModel,
    DeleteDirective, DeleteDirectiveArgument, DeleteEnum, DeleteField, DeleteModel,
    DirectiveLocation, DirectiveLocator, MigrationExpression, MigrationStep,
    UpdateDirectiveArgument, UpdateEnum, UpdateField, UpdateModel,
};

fn ident(name: &str) -> Identifier {
    Identifier { name: name.to_string() }
}

fn number(text: &str) -> Expression {
    Expression::NumericValue(text.to_string())
}

fn text(text: &str) -> Expression {
    Expression::StringValue(text.to_string())
}

fn argument(name: &str, value: Expression) -> Argument {
    Argument { name: ident(name), value }
}

fn directive(name: &str, arguments: Vec<Argument>) -> Directive {
    Directive { name: ident(name), arguments }
}

fn field(name: &str, tpe: &str, directives: Vec<Directive>) -> Field {
    Field { field_type: ident(tpe), name: ident(name), arity: FieldArity::Required, directives }
}

fn model(name: &str, fields: Vec<Field>, directives: Vec<Directive>) -> Top {
    Top::Model(Model { name: ident(name), fields, directives })
}

fn enumeration(name: &str, values: &[&str], directives: Vec<Directive>) -> Top {
    Top::Enum(Enum {
        name: ident(name),
        values: values.iter().map(|value| EnumValue { name: value.to_string() }).collect(),
        directives,
    })
}

fn schema(tops: Vec<Top>) -> SchemaAst {
    SchemaAst { tops }
}

fn id_field() -> Field {
    field("id", "Int", vec![directive("id", vec![])])
}

fn field_locator(model: &str, field: &str, name: &str) -> DirectiveLocator {
    DirectiveLocator {
        location: DirectiveLocation::Field { model: model.to_string(), field: field.to_string() },
        name: name.to_string(),
    }
}

fn model_locator(model: &str, name: &str) -> DirectiveLocator {
    DirectiveLocator {
        location: DirectiveLocation::Model { model: model.to_string() },
        name: name.to_string(),
    }
}

fn enum_locator(enum_name: &str, name: &str) -> DirectiveLocator {
    DirectiveLocator {
        location: DirectiveLocation::Enum { enum_name: enum_name.to_string() },
        name: name.to_string(),
    }
}

fn expression(text: &str) -> MigrationExpression {
    MigrationExpression(text.to_string())
}

#[test]
fn adding_a_field_gives_one_create_field() {
    let previous = schema(vec![model("User", vec![id_field()], vec![])]);
    let next = schema(vec![model("User", vec![id_field(), field("name", "String", vec![])], vec![])]);

    let steps = diff(&previous, &next);

    assert_eq!(
        steps,
        vec![MigrationStep::CreateField(CreateField {
            model: "User".to_string(),
            name: "name".to_string(),
            tpe: "String".to_string(),
            arity: FieldArity::Required,
            db_name: None,
            default: None,
        })]
    );
}

#[test]
fn changed_enum_values_give_one_update_enum() {
    let previous = schema(vec![enumeration("Color", &["RED", "BLUE"], vec![])]);
    let next = schema(vec![enumeration("Color", &["RED", "GREEN"], vec![])]);

    let steps = diff(&previous, &next);

    assert_eq!(
        steps,
        vec![MigrationStep::UpdateEnum(UpdateEnum {
            name: "Color".to_string(),
            new_name: None,
            created_values: vec!["GREEN".to_string()],
            deleted_values: vec!["BLUE".to_string()],
        })]
    );
}

#[test]
fn changed_default_is_carried_by_the_field_update() {
    let with_default = |value: &str| {
        schema(vec![model(
            "User",
            vec![
                id_field(),
                field("age", "Int", vec![directive("default", vec![argument("", number(value))])]),
            ],
            vec![],
        )])
    };

    let steps = diff(&with_default("1"), &with_default("2"));

    assert_eq!(
        steps,
        vec![MigrationStep::UpdateField(UpdateField {
            model: "User".to_string(),
            name: "age".to_string(),
            new_name: None,
            tpe: None,
            arity: None,
            default: Some(Some(expression("2"))),
        })]
    );
}

#[test]
fn removed_default_is_an_update_to_no_default() {
    let previous = schema(vec![model(
        "User",
        vec![field("age", "Int", vec![directive("default", vec![argument("", number("1"))])])],
        vec![],
    )]);
    let next = schema(vec![model("User", vec![field("age", "Int", vec![])], vec![])]);

    let steps = diff(&previous, &next);

    assert_eq!(
        steps,
        vec![MigrationStep::UpdateField(UpdateField {
            model: "User".to_string(),
            name: "age".to_string(),
            new_name: None,
            tpe: None,
            arity: None,
            default: Some(None),
        })]
    );
}

fn sample_schema() -> SchemaAst {
    schema(vec![
        model(
            "User",
            vec![
                id_field(),
                field(
                    "name",
                    "String",
                    vec![
                        directive("map", vec![argument("", text("user_name"))]),
                        directive("default", vec![argument("", text("nobody"))]),
                    ],
                ),
            ],
            vec![directive("map", vec![argument("", text("users"))])],
        ),
        enumeration("Color", &["RED", "BLUE"], vec![directive("map", vec![argument("", text("colors"))])]),
        model("Post", vec![id_field()], vec![]),
    ])
}

#[test]
fn a_schema_does_not_differ_from_itself() {
    assert_eq!(diff(&sample_schema(), &sample_schema()), vec![]);
    assert_eq!(diff(&schema(vec![]), &schema(vec![])), vec![]);
}

#[test]
fn an_equal_argument_value_gives_no_update() {
    let locator = model_locator("User", "map");
    let mut steps = Vec::new();

    push_updated_directive_argument(
        &mut steps,
        &locator,
        &argument("", text("users")),
        &argument("", text("users")),
    );
    assert_eq!(steps, vec![]);

    push_updated_directive_argument(
        &mut steps,
        &locator,
        &argument("", text("users")),
        &argument("", text("people")),
    );
    assert_eq!(
        steps,
        vec![MigrationStep::UpdateDirectiveArgument(UpdateDirectiveArgument {
            directive_location: locator,
            argument_name: "".to_string(),
            new_argument_value: expression("\"people\""),
        })]
    );
}

fn is_enum_level(step: &MigrationStep) -> bool {
    let on_enum = |locator: &DirectiveLocator| matches!(locator.location, DirectiveLocation::Enum { .. });
    match step {
        MigrationStep::CreateEnum(_) | MigrationStep::UpdateEnum(_) | MigrationStep::DeleteEnum(_) => true,
        MigrationStep::CreateDirective(step) => on_enum(&step.locator),
        MigrationStep::DeleteDirective(step) => on_enum(&step.locator),
        MigrationStep::CreateDirectiveArgument(step) => on_enum(&step.directive_location),
        MigrationStep::UpdateDirectiveArgument(step) => on_enum(&step.directive_location),
        MigrationStep::DeleteDirectiveArgument(step) => on_enum(&step.directive_location),
        _ => false,
    }
}

#[test]
fn enum_steps_come_before_model_steps() {
    let previous = schema(vec![
        model("Post", vec![id_field()], vec![]),
        enumeration("Old", &["A"], vec![]),
        model("User", vec![id_field()], vec![]),
        enumeration("Color", &["RED"], vec![directive("map", vec![argument("", text("c"))])]),
    ]);
    let next = schema(vec![
        model("User", vec![id_field(), field("name", "String", vec![])], vec![]),
        enumeration("Color", &["RED", "GREEN"], vec![directive("map", vec![argument("", text("d"))])]),
        model("Blog", vec![id_field()], vec![]),
        enumeration("Fresh", &["B"], vec![directive("map", vec![argument("", text("f"))])]),
    ]);

    let steps = diff(&previous, &next);

    let levels: Vec<bool> = steps.iter().map(is_enum_level).collect();
    assert_eq!(
        levels,
        vec![true, true, true, true, true, true, false, false, false, false, false]
    );
    assert_eq!(
        steps[0],
        MigrationStep::CreateEnum(CreateEnum { name: "Fresh".to_string(), values: vec!["B".to_string()] })
    );
    assert_eq!(steps[3], MigrationStep::DeleteEnum(DeleteEnum { name: "Old".to_string() }));
    assert_eq!(
        steps[5],
        MigrationStep::UpdateDirectiveArgument(UpdateDirectiveArgument {
            directive_location: enum_locator("Color", "map"),
            argument_name: "".to_string(),
            new_argument_value: expression("\"d\""),
        })
    );
    assert_eq!(
        steps[6],
        MigrationStep::CreateModel(CreateModel { name: "Blog".to_string(), db_name: None, embedded: false })
    );
    assert_eq!(steps[9], MigrationStep::DeleteModel(DeleteModel { name: "Post".to_string() }));
}

#[test]
fn names_are_matched_exactly_and_by_case() {
    let previous = schema(vec![model("user", vec![], vec![])]);
    let next = schema(vec![model("User", vec![], vec![])]);

    let steps = diff(&previous, &next);

    assert_eq!(
        steps,
        vec![
            MigrationStep::CreateModel(CreateModel { name: "User".to_string(), db_name: None, embedded: false }),
            MigrationStep::DeleteModel(DeleteModel { name: "user".to_string() }),
        ]
    );
}

#[test]
fn a_created_model_brings_its_fields_and_directives() {
    let next = schema(vec![model(
        "User",
        vec![field(
            "name",
            "String",
            vec![
                directive("default", vec![argument("", text("nobody"))]),
                directive("map", vec![argument("", text("user_name"))]),
            ],
        )],
        vec![directive("map", vec![argument("", text("users"))])],
    )]);

    let steps = diff(&schema(vec![]), &next);

    assert_eq!(
        steps,
        vec![
            MigrationStep::CreateModel(CreateModel {
                name: "User".to_string(),
                db_name: Some("users".to_string()),
                embedded: false,
            }),
            MigrationStep::CreateField(CreateField {
                model: "User".to_string(),
                name: "name".to_string(),
                tpe: "String".to_string(),
                arity: FieldArity::Required,
                db_name: Some("user_name".to_string()),
                default: Some(expression("\"nobody\"")),
            }),
            MigrationStep::CreateDirective(CreateDirective { locator: field_locator("User", "name", "map") }),
            MigrationStep::CreateDirectiveArgument(CreateDirectiveArgument {
                directive_location: field_locator("User", "name", "map"),
                argument_name: "".to_string(),
                argument_value: expression("\"user_name\""),
            }),
            MigrationStep::CreateDirective(CreateDirective { locator: model_locator("User", "map") }),
            MigrationStep::CreateDirectiveArgument(CreateDirectiveArgument {
                directive_location: model_locator("User", "map"),
                argument_name: "".to_string(),
                argument_value: expression("\"users\""),
            }),
        ]
    );
}

#[test]
fn an_updated_model_lists_created_then_updated_then_deleted_fields() {
    let previous = schema(vec![model(
        "User",
        vec![field("gone", "Int", vec![]), field("age", "Int", vec![])],
        vec![],
    )]);
    let mut changed = field("age", "String", vec![]);
    changed.arity = FieldArity::Optional;
    let next = schema(vec![model("User", vec![changed, field("fresh", "Int", vec![])], vec![])]);

    let steps = diff(&previous, &next);

    assert_eq!(
        steps,
        vec![
            MigrationStep::CreateField(CreateField {
                model: "User".to_string(),
                name: "fresh".to_string(),
                tpe: "Int".to_string(),
                arity: FieldArity::Required,
                db_name: None,
                default: None,
            }),
            MigrationStep::UpdateField(UpdateField {
                model: "User".to_string(),
                name: "age".to_string(),
                new_name: None,
                tpe: Some("String".to_string()),
                arity: Some(FieldArity::Optional),
                default: None,
            }),
            MigrationStep::DeleteField(DeleteField { model: "User".to_string(), name: "gone".to_string() }),
        ]
    );
}

#[test]
fn directive_arguments_are_created_updated_and_deleted() {
    let previous = schema(vec![model(
        "User",
        vec![],
        vec![
            directive(
                "index",
                vec![argument("name", text("a")), argument("old", number("1")), argument("same", number("3"))],
            ),
            directive("dropped", vec![argument("", number("1"))]),
        ],
    )]);
    let next = schema(vec![model(
        "User",
        vec![],
        vec![
            directive("added", vec![]),
            directive(
                "index",
                vec![argument("same", number("3")), argument("name", text("b")), argument("new", number("2"))],
            ),
        ],
    )]);

    let steps = diff(&previous, &next);

    assert_eq!(
        steps,
        vec![
            MigrationStep::CreateDirective(CreateDirective { locator: model_locator("User", "added") }),
            MigrationStep::CreateDirectiveArgument(CreateDirectiveArgument {
                directive_location: model_locator("User", "index"),
                argument_name: "new".to_string(),
                argument_value: expression("2"),
            }),
            MigrationStep::UpdateDirectiveArgument(UpdateDirectiveArgument {
                directive_location: model_locator("User", "index"),
                argument_name: "name".to_string(),
                new_argument_value: expression("\"b\""),
            }),
            MigrationStep::DeleteDirectiveArgument(DeleteDirectiveArgument {
                directive_location: model_locator("User", "index"),
                argument_name: "old".to_string(),
            }),
            MigrationStep::DeleteDirective(DeleteDirective { locator: model_locator("User", "dropped") }),
        ]
    );
}

#[test]
fn expressions_render_as_schema_text() {
    let call = Expression::Function(
        "dbgenerated".to_string(),
        vec![text("x"), number("1"), Expression::ConstantValue("now".to_string())],
    );
    assert_eq!(call.render_to_string(), "dbgenerated(\"x\", 1, now)");
    assert_eq!(Expression::Function("cuid".to_string(), vec![]).render_to_string(), "cuid()");
    assert_eq!(
        Expression::Array(vec![number("1"), Expression::BooleanValue("true".to_string())]).render_to_string(),
        "[1, true]"
    );
    assert_eq!(Expression::Array(vec![]).render_to_string(), "[]");
    assert_eq!(
        MigrationExpression::from_ast_expression(&text("a b")),
        expression("\"a b\"")
    );
}

#[test]
fn a_created_directive_brings_its_arguments() {
    let mut steps = Vec::new();

    push_created_directive(
        &mut steps,
        DirectiveLocation::Enum { enum_name: "Color".to_string() },
        &directive("map", vec![argument("", text("colors")), argument("x", number("1"))]),
    );

    assert_eq!(
        steps,
        vec![
            MigrationStep::CreateDirective(CreateDirective { locator: enum_locator("Color", "map") }),
            MigrationStep::CreateDirectiveArgument(CreateDirectiveArgument {
                directive_location: enum_locator("Color", "map"),
                argument_name: "".to_string(),
                argument_value: expression("\"colors\""),
            }),
            MigrationStep::CreateDirectiveArgument(CreateDirectiveArgument {
                directive_location: enum_locator("Color", "map"),
                argument_name: "x".to_string(),
                argument_value: expression("1"),
            }),
        ]
    );
}

#[test]
fn diff_value_keeps_only_a_changed_value() {
    assert_eq!(diff_value(&"a".to_string(), &"a".to_string()), None);
    assert_eq!(diff_value(&"a".to_string(), &"b".to_string()), Some("b".to_string()));
    assert_eq!(diff_value(&FieldArity::List, &FieldArity::List), None);
    assert_eq!(diff_value(&FieldArity::List, &FieldArity::Optional), Some(FieldArity::Optional));
    assert_eq!(diff_value(&Some(expression("1")), &None), Some(None));
    assert_eq!(diff_value(&None, &Some(expression("1"))), Some(Some(expression("1"))));
    assert_eq!(diff_value(&Some(expression("1")), &Some(expression("1"))), None);
}

#[test]
fn the_string_value_of_a_directive_is_its_first_argument() {
    let directives = vec![
        directive("unique", vec![]),
        directive("map", vec![argument("", text("first")), argument("", text("second"))]),
        directive("map", vec![argument("", text("later"))]),
        directive("default", vec![argument("", number("1"))]),
    ];

    assert_eq!(get_directive_string_value("map", &directives), Some("first"));
    assert_eq!(get_directive_string_value("default", &directives), None);
    assert_eq!(get_directive_string_value("unique", &directives), None);
    assert_eq!(get_directive_string_value("missing", &directives), None);
}

#[test]
fn an_update_without_a_change_sets_no_option() {
    let enum_update = UpdateEnum {
        name: "Color".to_string(),
        new_name: None,
        created_values: vec![],
        deleted_values: vec![],
    };
    assert!(!enum_update.is_any_option_set());
    assert!(UpdateEnum { deleted_values: vec!["RED".to_string()], ..enum_update.clone() }.is_any_option_set());
    assert!(UpdateEnum { new_name: Some("Colour".to_string()), ..enum_update }.is_any_option_set());

    let field_update = UpdateField {
        model: "User".to_string(),
        name: "age".to_string(),
        new_name: None,
        tpe: None,
        arity: None,
        default: None,
    };
    assert!(!field_update.is_any_option_set());
    assert!(UpdateField { default: Some(None), ..field_update.clone() }.is_any_option_set());
    assert!(UpdateField { arity: Some(FieldArity::List), ..field_update }.is_any_option_set());

    let model_update = UpdateModel { name: "User".to_string(), new_name: None, db_name: None, embedded: None };
    assert!(!model_update.is_any_option_set());
    assert!(UpdateModel { embedded: Some(true), ..model_update }.is_any_option_set());
}
