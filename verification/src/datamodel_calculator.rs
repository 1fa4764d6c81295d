//! The schema that a list of migration steps leads to. Schemas are held by names here: the
//! order of declarations plays no part in what a step does.

use crate::ast::{Argument, Directive, Enum, Field, FieldArity, Model, SchemaAst};
use crate::datamodel_differ::fields::{default_value, plain_directives};
use crate::datamodel_differ::top_level::{enums_in, models_in};
use crate::keyed::{
    argument_value, directive_arguments, enum_by_name, field_by_name, keyed_arguments, keyed_by,
    keyed_directives, keyed_enum, keyed_field, keyed_model, keyed_schema, keys_of,
    lemma_keyed_push, lemma_keyed_push_present, lemma_keys_push, model_by_name, KeyedEnum,
    KeyedField, KeyedModel, KeyedSchema,
};
use crate::named_entries::{NamedEntries, Present};
use crate::names::{borrow_all, lemma_take_all, lemma_take_step, views_of};
use crate::replay;
use crate::steps::{Diffable, DirectiveLocation, DirectiveLocator, MigrationStep};
use vstd::prelude::*;

verus! {

pub type ArgumentsByName = NamedEntries<String>;

pub type DirectivesByName = NamedEntries<NamedEntries<String>>;

pub struct EnumByName {
    pub values: NamedEntries<Present>,
    pub directives: DirectivesByName,
}

pub struct FieldByName {
    pub tpe: String,
    pub arity: FieldArity,
    pub default: Option<String>,
    pub directives: DirectivesByName,
}

pub struct ModelByName {
    pub fields: NamedEntries<FieldByName>,
    pub directives: DirectivesByName,
}

/// A schema by names.
pub struct SchemaByName {
    pub enums: NamedEntries<EnumByName>,
    pub models: NamedEntries<ModelByName>,
}

impl DeepView for EnumByName {
    type V = KeyedEnum;

    open spec fn deep_view(&self) -> KeyedEnum {
        KeyedEnum { values: self.values.deep_view().dom(), directives: self.directives.deep_view() }
    }
}

impl DeepView for FieldByName {
    type V = KeyedField;

    open spec fn deep_view(&self) -> KeyedField {
        KeyedField {
            tpe: self.tpe@,
            arity: self.arity,
            default: self.default.deep_view(),
            directives: self.directives.deep_view(),
        }
    }
}

impl DeepView for ModelByName {
    type V = KeyedModel;

    open spec fn deep_view(&self) -> KeyedModel {
        KeyedModel { fields: self.fields.deep_view(), directives: self.directives.deep_view() }
    }
}

impl DeepView for SchemaByName {
    type V = KeyedSchema;

    open spec fn deep_view(&self) -> KeyedSchema {
        KeyedSchema { enums: self.enums.deep_view(), models: self.models.deep_view() }
    }
}

impl Diffable for EnumByName {
    fn same(&self, other: &Self) -> (same: bool) {
        let same_values = self.values.same(&other.values);
        proof {
            if self.values.deep_view().dom() == other.values.deep_view().dom() {
                assert(self.values.deep_view() =~= other.values.deep_view());
            }
        }
        same_values && self.directives.same(&other.directives)
    }

    fn duplicate(&self) -> (copy: Self) {
        EnumByName { values: self.values.duplicate(), directives: self.directives.duplicate() }
    }
}

impl Diffable for FieldByName {
    fn same(&self, other: &Self) -> (same: bool) {
        self.tpe == other.tpe && self.arity == other.arity && self.default.same(&other.default)
            && self.directives.same(&other.directives)
    }

    fn duplicate(&self) -> (copy: Self) {
        FieldByName {
            tpe: self.tpe.clone(),
            arity: self.arity,
            default: self.default.duplicate(),
            directives: self.directives.duplicate(),
        }
    }
}

impl Diffable for ModelByName {
    fn same(&self, other: &Self) -> (same: bool) {
        self.fields.same(&other.fields) && self.directives.same(&other.directives)
    }

    fn duplicate(&self) -> (copy: Self) {
        ModelByName { fields: self.fields.duplicate(), directives: self.directives.duplicate() }
    }
}

impl Diffable for SchemaByName {
    fn same(&self, other: &Self) -> (same: bool) {
        self.enums.same(&other.enums) && self.models.same(&other.models)
    }

    fn duplicate(&self) -> (copy: Self) {
        SchemaByName { enums: self.enums.duplicate(), models: self.models.duplicate() }
    }
}

impl SchemaByName {
    /// The schema without any declaration.
    pub fn empty() -> (schema: Self)
        ensures
            schema.deep_view() == (KeyedSchema { enums: Map::empty(), models: Map::empty() }),
    {
        SchemaByName { enums: NamedEntries::new(), models: NamedEntries::new() }
    }
}

/// The arguments of a directive by name.
pub fn arguments_by_name(arguments: &Vec<Argument>) -> (keyed: ArgumentsByName)
    ensures
        keyed.deep_view() == keyed_arguments(arguments.deep_view()),
{
    let ghost views = arguments.deep_view();
    let mut keyed: ArgumentsByName = NamedEntries::new();
    let mut i: usize = 0;
    assert(keyed_arguments(views.take(0)) =~= Map::empty());
    while i < arguments.len()
        invariant
            i <= arguments.len(),
            views == arguments.deep_view(),
            keyed.deep_view() == keyed_arguments(views.take(i as int)),
        decreases arguments.len() - i,
    {
        let argument = &arguments[i];
        proof {
            lemma_take_step(views, i as int);
            assert(views.take(i + 1) =~= views.take(i as int).push(views[i as int]));
            if keyed.deep_view().contains_key(argument.name.name@) {
                lemma_keyed_push_present(views.take(i as int), views[i as int], argument_value());
            } else {
                lemma_keyed_push(views.take(i as int), views[i as int], argument_value());
            }
        }
        if !keyed.contains(&argument.name.name) {
            keyed = keyed.insert(argument.name.name.clone(), argument.value.render_to_string());
        }
        i = i + 1;
    }
    proof {
        lemma_take_all(views);
    }
    keyed
}

/// A list of directives by name.
pub fn directives_by_name(directives: &Vec<&Directive>) -> (keyed: DirectivesByName)
    ensures
        keyed.deep_view() == keyed_directives(views_of(directives@)),
{
    let ghost views = views_of(directives@);
    let mut keyed: DirectivesByName = NamedEntries::new();
    let mut i: usize = 0;
    assert(keyed_directives(views.take(0)) =~= Map::empty());
    while i < directives.len()
        invariant
            i <= directives.len(),
            views == views_of(directives@),
            keyed.deep_view() == keyed_directives(views.take(i as int)),
        decreases directives.len() - i,
    {
        let directive = directives[i];
        proof {
            lemma_take_step(views, i as int);
            assert(views.take(i + 1) =~= views.take(i as int).push(views[i as int]));
            if keyed.deep_view().contains_key(directive.name.name@) {
                lemma_keyed_push_present(
                    views.take(i as int),
                    views[i as int],
                    directive_arguments(),
                );
            } else {
                lemma_keyed_push(views.take(i as int), views[i as int], directive_arguments());
            }
        }
        if !keyed.contains(&directive.name.name) {
            keyed = keyed.insert(
                directive.name.name.clone(),
                arguments_by_name(&directive.arguments),
            );
        }
        i = i + 1;
    }
    proof {
        lemma_take_all(views);
    }
    keyed
}

/// An enum by names.
pub fn enum_by_names(declared: &Enum) -> (keyed: EnumByName)
    ensures
        keyed.deep_view() == keyed_enum(declared.deep_view()),
{
    let ghost views = declared.deep_view().values;
    let mut values: NamedEntries<Present> = NamedEntries::new();
    let mut i: usize = 0;
    assert(keys_of(views.take(0)) =~= Set::empty());
    while i < declared.values.len()
        invariant
            i <= declared.values.len(),
            views == declared.deep_view().values,
            values.deep_view().dom() == keys_of(views.take(i as int)),
        decreases declared.values.len() - i,
    {
        proof {
            lemma_take_step(views, i as int);
            assert(views.take(i + 1) =~= views.take(i as int).push(views[i as int]));
            lemma_keys_push(views.take(i as int), views[i as int]);
        }
        values = values.insert(declared.values[i].name.clone(), Present);
        assert(values.deep_view().dom() =~= keys_of(views.take(i + 1)));
        i = i + 1;
    }
    proof {
        lemma_take_all(views);
    }
    EnumByName { values, directives: directives_by_name(&borrow_all(&declared.directives)) }
}

/// The text of an optional expression.
pub fn expression_text(expression: Option<crate::steps::MigrationExpression>) -> (text: Option<
    String,
>)
    ensures
        text.deep_view() == expression.deep_view(),
{
    match expression {
        Some(expression) => Some(expression.0),
        None => None,
    }
}

/// A field by names.
pub fn field_by_names(declared: &Field) -> (keyed: FieldByName)
    ensures
        keyed.deep_view() == keyed_field(declared.deep_view()),
{
    FieldByName {
        tpe: declared.field_type.name.clone(),
        arity: declared.arity,
        default: expression_text(default_value(declared)),
        directives: directives_by_name(&plain_directives(declared)),
    }
}

/// A model by names.
pub fn model_by_names(declared: &Model) -> (keyed: ModelByName)
    ensures
        keyed.deep_view() == keyed_model(declared.deep_view()),
{
    let ghost views = declared.deep_view().fields;
    let mut fields: NamedEntries<FieldByName> = NamedEntries::new();
    let mut i: usize = 0;
    assert(keyed_by(views.take(0), field_by_name()) =~= Map::empty());
    while i < declared.fields.len()
        invariant
            i <= declared.fields.len(),
            views == declared.deep_view().fields,
            fields.deep_view() == keyed_by(views.take(i as int), field_by_name()),
        decreases declared.fields.len() - i,
    {
        let field = &declared.fields[i];
        proof {
            lemma_take_step(views, i as int);
            assert(views.take(i + 1) =~= views.take(i as int).push(views[i as int]));
            if fields.deep_view().contains_key(field.name.name@) {
                lemma_keyed_push_present(views.take(i as int), views[i as int], field_by_name());
            } else {
                lemma_keyed_push(views.take(i as int), views[i as int], field_by_name());
            }
        }
        if !fields.contains(&field.name.name) {
            fields = fields.insert(field.name.name.clone(), field_by_names(field));
        }
        i = i + 1;
    }
    proof {
        lemma_take_all(views);
    }
    ModelByName { fields, directives: directives_by_name(&borrow_all(&declared.directives)) }
}

/// A schema by names: of two declarations with one name, the first one counts.
pub fn schema_by_names(schema: &SchemaAst) -> (keyed: SchemaByName)
    ensures
        keyed.deep_view() == keyed_schema(schema.deep_view()),
{
    let declared_enums = enums_in(schema);
    let ghost enum_views = views_of(declared_enums@);
    let mut enums: NamedEntries<EnumByName> = NamedEntries::new();
    let mut i: usize = 0;
    assert(keyed_by(enum_views.take(0), enum_by_name()) =~= Map::empty());
    while i < declared_enums.len()
        invariant
            i <= declared_enums.len(),
            enum_views == views_of(declared_enums@),
            enums.deep_view() == keyed_by(enum_views.take(i as int), enum_by_name()),
        decreases declared_enums.len() - i,
    {
        let declared = declared_enums[i];
        proof {
            lemma_take_step(enum_views, i as int);
            assert(enum_views.take(i + 1) =~= enum_views.take(i as int).push(enum_views[i as int]));
            if enums.deep_view().contains_key(declared.name.name@) {
                lemma_keyed_push_present(
                    enum_views.take(i as int),
                    enum_views[i as int],
                    enum_by_name(),
                );
            } else {
                lemma_keyed_push(enum_views.take(i as int), enum_views[i as int], enum_by_name());
            }
        }
        if !enums.contains(&declared.name.name) {
            enums = enums.insert(declared.name.name.clone(), enum_by_names(declared));
        }
        i = i + 1;
    }
    let declared_models = models_in(schema);
    let ghost model_views = views_of(declared_models@);
    let mut models: NamedEntries<ModelByName> = NamedEntries::new();
    let mut j: usize = 0;
    assert(keyed_by(model_views.take(0), model_by_name()) =~= Map::empty());
    while j < declared_models.len()
        invariant
            j <= declared_models.len(),
            model_views == views_of(declared_models@),
            models.deep_view() == keyed_by(model_views.take(j as int), model_by_name()),
        decreases declared_models.len() - j,
    {
        let declared = declared_models[j];
        proof {
            lemma_take_step(model_views, j as int);
            assert(model_views.take(j + 1) =~= model_views.take(j as int).push(
                model_views[j as int],
            ));
            if models.deep_view().contains_key(declared.name.name@) {
                lemma_keyed_push_present(
                    model_views.take(j as int),
                    model_views[j as int],
                    model_by_name(),
                );
            } else {
                lemma_keyed_push(
                    model_views.take(j as int),
                    model_views[j as int],
                    model_by_name(),
                );
            }
        }
        if !models.contains(&declared.name.name) {
            models = models.insert(declared.name.name.clone(), model_by_names(declared));
        }
        j = j + 1;
    }
    proof {
        lemma_take_all(enum_views);
        lemma_take_all(model_views);
    }
    SchemaByName { enums, models }
}

/// The arguments of a directive after a step on one of them.
pub fn apply_argument_step(arguments: ArgumentsByName, step: &MigrationStep) -> (applied:
    ArgumentsByName)
    ensures
        applied.deep_view() == replay::apply_argument_step(
            arguments.deep_view(),
            step.deep_view(),
        ),
{
    match step {
        MigrationStep::CreateDirectiveArgument(create) => arguments.insert(
            create.argument_name.clone(),
            create.argument_value.0.clone(),
        ),
        MigrationStep::UpdateDirectiveArgument(update) => arguments.insert(
            update.argument_name.clone(),
            update.new_argument_value.0.clone(),
        ),
        MigrationStep::DeleteDirectiveArgument(delete) => arguments.remove(
            &delete.argument_name,
        ).0,
        _ => arguments,
    }
}

/// The directive whose argument a step is on.
pub fn argument_locator(step: &MigrationStep) -> (locator: Option<&DirectiveLocator>)
    ensures
        locator.deep_view() == replay::argument_locator_of(step.deep_view()),
{
    match step {
        MigrationStep::CreateDirectiveArgument(create) => Some(&create.directive_location),
        MigrationStep::UpdateDirectiveArgument(update) => Some(&update.directive_location),
        MigrationStep::DeleteDirectiveArgument(delete) => Some(&delete.directive_location),
        _ => None,
    }
}

/// The directives of an entity after a step on one of them.
pub fn apply_directive_step(directives: DirectivesByName, step: &MigrationStep) -> (applied:
    DirectivesByName)
    ensures
        applied.deep_view() == replay::apply_directive_step(
            directives.deep_view(),
            step.deep_view(),
        ),
{
    match step {
        MigrationStep::CreateDirective(create) => {
            let none: NamedEntries<String> = NamedEntries::new();
            directives.insert(create.locator.name.clone(), none)
        },
        MigrationStep::DeleteDirective(delete) => directives.remove(&delete.locator.name).0,
        _ => match argument_locator(step) {
            Some(locator) => {
                let ghost before = directives.deep_view();
                let (rest, taken) = directives.remove(&locator.name);
                match taken {
                    Some(arguments) => {
                        let applied = rest.insert(
                            locator.name.clone(),
                            apply_argument_step(arguments, step),
                        );
                        assert(applied.deep_view() =~= before.insert(
                            locator.name@,
                            replay::apply_argument_step(before[locator.name@], step.deep_view()),
                        ));
                        applied
                    },
                    None => {
                        assert(rest.deep_view() =~= before);
                        rest
                    },
                }
            },
            None => directives,
        },
    }
}

/// The entity that a step on a directive, or on an argument of one, is attached to.
pub fn directive_location(step: &MigrationStep) -> (location: Option<&DirectiveLocation>)
    ensures
        location.deep_view() == crate::datamodel_differ::ordering::directive_location_of(
            step.deep_view(),
        ),
{
    match step {
        MigrationStep::CreateDirective(create) => Some(&create.locator.location),
        MigrationStep::DeleteDirective(delete) => Some(&delete.locator.location),
        MigrationStep::CreateDirectiveArgument(create) => Some(&create.directive_location.location),
        MigrationStep::UpdateDirectiveArgument(update) => Some(&update.directive_location.location),
        MigrationStep::DeleteDirectiveArgument(delete) => Some(&delete.directive_location.location),
        _ => None,
    }
}

/// The schema after a step on a directive of the entity at `location`.
pub fn apply_directive_step_at(
    schema: SchemaByName,
    location: &DirectiveLocation,
    step: &MigrationStep,
) -> (applied: SchemaByName)
    ensures
        applied.deep_view() == replay::with_directives_at(
            schema.deep_view(),
            location.deep_view(),
            replay::apply_directive_step(
                replay::directives_at(schema.deep_view(), location.deep_view()),
                step.deep_view(),
            ),
        ),
{
    let ghost before = schema.deep_view();
    let SchemaByName { enums, models } = schema;
    match location {
        DirectiveLocation::Enum { enum_name } => {
            let (rest, taken) = enums.remove(enum_name);
            match taken {
                Some(found) => {
                    let EnumByName { values, directives } = found;
                    let directives = apply_directive_step(directives, step);
                    let enums = rest.insert(enum_name.clone(), EnumByName { values, directives });
                    let applied = SchemaByName { enums, models };
                    assert(applied.deep_view().enums =~= replay::with_directives_at(
                        before,
                        location.deep_view(),
                        replay::apply_directive_step(
                            replay::directives_at(before, location.deep_view()),
                            step.deep_view(),
                        ),
                    ).enums);
                    applied
                },
                None => {
                    assert(rest.deep_view() =~= before.enums);
                    SchemaByName { enums: rest, models }
                },
            }
        },
        DirectiveLocation::Model { model } => {
            let (rest, taken) = models.remove(model);
            match taken {
                Some(found) => {
                    let ModelByName { fields, directives } = found;
                    let directives = apply_directive_step(directives, step);
                    let models = rest.insert(model.clone(), ModelByName { fields, directives });
                    let applied = SchemaByName { enums, models };
                    assert(applied.deep_view().models =~= replay::with_directives_at(
                        before,
                        location.deep_view(),
                        replay::apply_directive_step(
                            replay::directives_at(before, location.deep_view()),
                            step.deep_view(),
                        ),
                    ).models);
                    applied
                },
                None => {
                    assert(rest.deep_view() =~= before.models);
                    SchemaByName { enums, models: rest }
                },
            }
        },
        DirectiveLocation::Field { model, field } => {
            let (rest, taken) = models.remove(model);
            match taken {
                Some(found) => {
                    let ModelByName { fields, directives: model_directives } = found;
                    let ghost fields_before = fields.deep_view();
                    let (other_fields, taken_field) = fields.remove(field);
                    let fields = match taken_field {
                        Some(found_field) => {
                            let FieldByName { tpe, arity, default, directives } = found_field;
                            let directives = apply_directive_step(directives, step);
                            other_fields.insert(
                                field.clone(),
                                FieldByName { tpe, arity, default, directives },
                            )
                        },
                        None => {
                            assert(other_fields.deep_view() =~= fields_before);
                            other_fields
                        },
                    };
                    let models = rest.insert(
                        model.clone(),
                        ModelByName { fields, directives: model_directives },
                    );
                    let applied = SchemaByName { enums, models };
                    let ghost target = replay::with_directives_at(
                        before,
                        location.deep_view(),
                        replay::apply_directive_step(
                            replay::directives_at(before, location.deep_view()),
                            step.deep_view(),
                        ),
                    );
                    assert(applied.deep_view().models[model@].fields =~= target.models[model@].fields);
                    assert(applied.deep_view().models =~= target.models);
                    applied
                },
                None => {
                    assert(rest.deep_view() =~= before.models);
                    SchemaByName { enums, models: rest }
                },
            }
        },
    }
}

/// The names of `names`, each once.
pub fn names_present(names: &Vec<String>) -> (present: NamedEntries<Present>)
    ensures
        present.deep_view().dom() == names.deep_view().to_set(),
{
    let ghost views = names.deep_view();
    let mut present: NamedEntries<Present> = NamedEntries::new();
    let mut i: usize = 0;
    assert(views.take(0).to_set() =~= Set::empty());
    while i < names.len()
        invariant
            i <= names.len(),
            views == names.deep_view(),
            present.deep_view().dom() == views.take(i as int).to_set(),
        decreases names.len() - i,
    {
        proof {
            lemma_take_step(views, i as int);
            assert(views.take(i + 1) =~= views.take(i as int).push(views[i as int]));
            lemma_to_set_push(views.take(i as int), views[i as int]);
        }
        present = present.insert(names[i].clone(), Present);
        assert(present.deep_view().dom() =~= views.take(i + 1).to_set());
        i = i + 1;
    }
    proof {
        lemma_take_all(views);
    }
    present
}

/// The set of a list with one more item.
proof fn lemma_to_set_push<A>(items: Seq<A>, item: A)
    ensures
        items.push(item).to_set() == items.to_set().insert(item),
{
    let longer = items.push(item);
    assert forall|a: A| longer.to_set().contains(a) <==> items.to_set().insert(item).contains(
        a,
    ) by {
        if longer.contains(a) {
            let i = choose|i: int| 0 <= i < longer.len() && longer[i] == a;
            if i < items.len() {
                assert(items[i] == a);
            }
        }
        if items.contains(a) {
            let i = choose|i: int| 0 <= i < items.len() && items[i] == a;
            assert(longer[i] == a);
        }
        if a == item {
            assert(longer[items.len() as int] == a);
        }
    }
    assert(longer.to_set() =~= items.to_set().insert(item));
}

/// The values of an enum after some are added and some are taken away.
pub fn update_values(
    values: NamedEntries<Present>,
    created: &Vec<String>,
    deleted: &Vec<String>,
) -> (updated: NamedEntries<Present>)
    ensures
        updated.deep_view().dom() == values.deep_view().dom().union(
            created.deep_view().to_set(),
        ).difference(deleted.deep_view().to_set()),
{
    let ghost start = values.deep_view().dom();
    let ghost created_views = created.deep_view();
    let ghost deleted_views = deleted.deep_view();
    let mut updated = values;
    let mut i: usize = 0;
    assert(created_views.take(0).to_set() =~= Set::empty());
    assert(start.union(Set::empty()) =~= start);
    while i < created.len()
        invariant
            i <= created.len(),
            created_views == created.deep_view(),
            updated.deep_view().dom() == start.union(created_views.take(i as int).to_set()),
        decreases created.len() - i,
    {
        proof {
            lemma_take_step(created_views, i as int);
            assert(created_views.take(i + 1) =~= created_views.take(i as int).push(
                created_views[i as int],
            ));
            lemma_to_set_push(created_views.take(i as int), created_views[i as int]);
        }
        updated = updated.insert(created[i].clone(), Present);
        assert(updated.deep_view().dom() =~= start.union(created_views.take(i + 1).to_set()));
        i = i + 1;
    }
    proof {
        lemma_take_all(created_views);
    }
    let ghost grown = updated.deep_view().dom();
    let mut j: usize = 0;
    assert(deleted_views.take(0).to_set() =~= Set::empty());
    assert(grown.difference(Set::empty()) =~= grown);
    while j < deleted.len()
        invariant
            j <= deleted.len(),
            deleted_views == deleted.deep_view(),
            updated.deep_view().dom() == grown.difference(deleted_views.take(j as int).to_set()),
        decreases deleted.len() - j,
    {
        proof {
            lemma_take_step(deleted_views, j as int);
            assert(deleted_views.take(j + 1) =~= deleted_views.take(j as int).push(
                deleted_views[j as int],
            ));
            lemma_to_set_push(deleted_views.take(j as int), deleted_views[j as int]);
        }
        updated = updated.remove(&deleted[j]).0;
        assert(updated.deep_view().dom() =~= grown.difference(
            deleted_views.take(j + 1).to_set(),
        ));
        j = j + 1;
    }
    proof {
        lemma_take_all(deleted_views);
    }
    updated
}

/// The name that an entity has after an update.
pub fn renamed(name: &String, new_name: &Option<String>) -> (renamed: String)
    ensures
        renamed@ == replay::renamed(name@, new_name.deep_view()),
{
    match new_name {
        Some(new_name) => new_name.clone(),
        None => name.clone(),
    }
}

/// The schema after one step. A step on an entity that the schema lacks changes nothing.
pub fn apply_step(schema: SchemaByName, step: &MigrationStep) -> (applied: SchemaByName)
    ensures
        applied.deep_view() == replay::apply_step(schema.deep_view(), step.deep_view()),
{
    let ghost before = schema.deep_view();
    let ghost target = replay::apply_step(before, step.deep_view());
    match step {
        MigrationStep::CreateEnum(create) => {
            let SchemaByName { enums, models } = schema;
            let created = EnumByName {
                values: names_present(&create.values),
                directives: NamedEntries::new(),
            };
            let applied = SchemaByName { enums: enums.insert(create.name.clone(), created), models };
            assert(applied.deep_view().enums =~= target.enums);
            applied
        },
        MigrationStep::DeleteEnum(delete) => {
            let SchemaByName { enums, models } = schema;
            SchemaByName { enums: enums.remove(&delete.name).0, models }
        },
        MigrationStep::UpdateEnum(update) => {
            let SchemaByName { enums, models } = schema;
            let (rest, taken) = enums.remove(&update.name);
            match taken {
                Some(found) => {
                    let EnumByName { values, directives } = found;
                    let values = update_values(
                        values,
                        &update.created_values,
                        &update.deleted_values,
                    );
                    let enums = rest.insert(
                        renamed(&update.name, &update.new_name),
                        EnumByName { values, directives },
                    );
                    let applied = SchemaByName { enums, models };
                    assert(applied.deep_view().enums =~= target.enums);
                    applied
                },
                None => {
                    assert(rest.deep_view() =~= before.enums);
                    SchemaByName { enums: rest, models }
                },
            }
        },
        MigrationStep::CreateModel(create) => {
            let SchemaByName { enums, models } = schema;
            let created = ModelByName { fields: NamedEntries::new(), directives: NamedEntries::new() };
            let applied = SchemaByName { enums, models: models.insert(create.name.clone(), created) };
            assert(applied.deep_view().models =~= target.models);
            applied
        },
        MigrationStep::UpdateModel(update) => {
            let SchemaByName { enums, models } = schema;
            let (rest, taken) = models.remove(&update.name);
            match taken {
                Some(found) => {
                    let models = rest.insert(renamed(&update.name, &update.new_name), found);
                    SchemaByName { enums, models }
                },
                None => {
                    assert(rest.deep_view() =~= before.models);
                    SchemaByName { enums, models: rest }
                },
            }
        },
        MigrationStep::DeleteModel(delete) => {
            let SchemaByName { enums, models } = schema;
            SchemaByName { enums, models: models.remove(&delete.name).0 }
        },
        MigrationStep::CreateField(create) => {
            let SchemaByName { enums, models } = schema;
            let (rest, taken) = models.remove(&create.model);
            match taken {
                Some(found) => {
                    let ModelByName { fields, directives } = found;
                    let created = FieldByName {
                        tpe: create.tpe.clone(),
                        arity: create.arity,
                        default: expression_text(create.default.duplicate()),
                        directives: NamedEntries::new(),
                    };
                    let fields = fields.insert(create.name.clone(), created);
                    let models = rest.insert(create.model.clone(), ModelByName { fields, directives });
                    let applied = SchemaByName { enums, models };
                    assert(applied.deep_view().models[create.model@].fields
                        =~= target.models[create.model@].fields);
                    assert(applied.deep_view().models =~= target.models);
                    applied
                },
                None => {
                    assert(rest.deep_view() =~= before.models);
                    SchemaByName { enums, models: rest }
                },
            }
        },
        MigrationStep::DeleteField(delete) => {
            let SchemaByName { enums, models } = schema;
            let (rest, taken) = models.remove(&delete.model);
            match taken {
                Some(found) => {
                    let ModelByName { fields, directives } = found;
                    let fields = fields.remove(&delete.name).0;
                    let models = rest.insert(delete.model.clone(), ModelByName { fields, directives });
                    let applied = SchemaByName { enums, models };
                    assert(applied.deep_view().models =~= target.models);
                    applied
                },
                None => {
                    assert(rest.deep_view() =~= before.models);
                    SchemaByName { enums, models: rest }
                },
            }
        },
        MigrationStep::UpdateField(update) => {
            let SchemaByName { enums, models } = schema;
            let (rest, taken) = models.remove(&update.model);
            match taken {
                Some(found) => {
                    let ModelByName { fields, directives } = found;
                    let ghost fields_before = fields.deep_view();
                    let (other_fields, taken_field) = fields.remove(&update.name);
                    let fields = match taken_field {
                        Some(current) => {
                            let updated = FieldByName {
                                tpe: match &update.tpe {
                                    Some(tpe) => tpe.clone(),
                                    None => current.tpe,
                                },
                                arity: match update.arity {
                                    Some(arity) => arity,
                                    None => current.arity,
                                },
                                default: match &update.default {
                                    Some(default) => expression_text(default.duplicate()),
                                    None => current.default,
                                },
                                directives: current.directives,
                            };
                            other_fields.insert(renamed(&update.name, &update.new_name), updated)
                        },
                        None => {
                            assert(other_fields.deep_view() =~= fields_before);
                            other_fields
                        },
                    };
                    let models = rest.insert(update.model.clone(), ModelByName { fields, directives });
                    let applied = SchemaByName { enums, models };
                    proof {
                        if fields_before.contains_key(update.name@) {
                            assert(applied.deep_view().models[update.model@].fields
                                =~= target.models[update.model@].fields);
                        }
                    }
                    assert(applied.deep_view().models =~= target.models);
                    applied
                },
                None => {
                    assert(rest.deep_view() =~= before.models);
                    SchemaByName { enums, models: rest }
                },
            }
        },
        _ => match directive_location(step) {
            Some(location) => apply_directive_step_at(schema, location, step),
            None => schema,
        },
    }
}

/// The schema that the steps lead to from `schema`, applied in order.
pub fn infer(schema: SchemaByName, steps: &Vec<MigrationStep>) -> (inferred: SchemaByName)
    ensures
        inferred.deep_view() == replay::apply_steps(schema.deep_view(), steps.deep_view()),
{
    let ghost start = schema.deep_view();
    let ghost views = steps.deep_view();
    let mut inferred = schema;
    let mut i: usize = 0;
    while i < steps.len()
        invariant
            i <= steps.len(),
            views == steps.deep_view(),
            inferred.deep_view() == replay::apply_steps(start, views.take(i as int)),
        decreases steps.len() - i,
    {
        proof {
            lemma_take_step(views, i as int);
        }
        inferred = apply_step(inferred, &steps[i]);
        i = i + 1;
    }
    proof {
        lemma_take_all(views);
    }
    inferred
}

} // verus!
