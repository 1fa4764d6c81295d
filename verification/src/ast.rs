//! The syntax tree of a declarative schema: enums and models at the top level, fields inside
//! models, directives on all of them, and arguments inside directives.

use vstd::prelude::*;
use vstd::string::StringExecFns;

verus! {

/// How many values a field holds.
#[derive(Clone, Copy, Debug, PartialEq, Eq, Structural)]
pub enum FieldArity {
    Required,
    Optional,
    List,
}

/// A name as written in the schema.
#[derive(Debug, PartialEq, Eq)]
pub struct Identifier {
    pub name: String,
}

/// The value of a directive argument.
#[derive(Debug, PartialEq, Eq)]
pub enum Expression {
    NumericValue(String),
    BooleanValue(String),
    StringValue(String),
    ConstantValue(String),
    Function(String, Vec<Expression>),
    Array(Vec<Expression>),
}

/// What the differ can observe of an expression: its rendering, and its text when it is a
/// string literal.
pub struct ExpressionView {
    pub rendered: Seq<char>,
    pub string_value: Option<Seq<char>>,
}

#[derive(Debug, PartialEq, Eq)]
pub struct Argument {
    pub name: Identifier,
    pub value: Expression,
}

pub struct ArgumentView {
    pub name: Seq<char>,
    pub value: ExpressionView,
}

#[derive(Debug, PartialEq, Eq)]
pub struct Directive {
    pub name: Identifier,
    pub arguments: Vec<Argument>,
}

pub struct DirectiveView {
    pub name: Seq<char>,
    pub arguments: Seq<ArgumentView>,
}

#[derive(Debug, PartialEq, Eq)]
pub struct Field {
    pub field_type: Identifier,
    pub name: Identifier,
    pub arity: FieldArity,
    pub directives: Vec<Directive>,
}

pub struct FieldView {
    pub field_type: Seq<char>,
    pub name: Seq<char>,
    pub arity: FieldArity,
    pub directives: Seq<DirectiveView>,
}

#[derive(Debug, PartialEq, Eq)]
pub struct EnumValue {
    pub name: String,
}

pub struct EnumValueView {
    pub name: Seq<char>,
}

#[derive(Debug, PartialEq, Eq)]
pub struct Enum {
    pub name: Identifier,
    pub values: Vec<EnumValue>,
    pub directives: Vec<Directive>,
}

pub struct EnumView {
    pub name: Seq<char>,
    pub values: Seq<EnumValueView>,
    pub directives: Seq<DirectiveView>,
}

#[derive(Debug, PartialEq, Eq)]
pub struct Model {
    pub name: Identifier,
    pub fields: Vec<Field>,
    pub directives: Vec<Directive>,
}

pub struct ModelView {
    pub name: Seq<char>,
    pub fields: Seq<FieldView>,
    pub directives: Seq<DirectiveView>,
}

/// A top-level declaration.
#[derive(Debug, PartialEq, Eq)]
pub enum Top {
    Enum(Enum),
    Model(Model),
}

pub enum TopView {
    Enum(EnumView),
    Model(ModelView),
}

/// A whole schema, in declaration order.
#[derive(Debug, PartialEq, Eq)]
pub struct SchemaAst {
    pub tops: Vec<Top>,
}

pub struct SchemaView {
    pub tops: Seq<TopView>,
}

/// The renderings of the first `n` of `items`, separated by a comma and a space.
pub open spec fn rendered_list(items: Seq<Expression>, n: nat) -> Seq<char>
    decreases items, n,
{
    if n == 0 || n > items.len() {
        Seq::empty()
    } else if n == 1 {
        items[0].rendered()
    } else {
        rendered_list(items, (n - 1) as nat) + seq![',', ' '] + items[n - 1].rendered()
    }
}

impl Expression {
    /// The text of the expression as it is written in a schema.
    pub open spec fn rendered(self) -> Seq<char>
        decreases self, 0nat,
    {
        match self {
            Expression::NumericValue(text) => text@,
            Expression::BooleanValue(text) => text@,
            Expression::StringValue(text) => seq!['"'] + text@ + seq!['"'],
            Expression::ConstantValue(text) => text@,
            Expression::Function(name, arguments) => name@ + seq!['('] + rendered_list(
                arguments@,
                arguments@.len(),
            ) + seq![')'],
            Expression::Array(items) => seq!['['] + rendered_list(items@, items@.len()) + seq![
                ']',
            ],
        }
    }

    pub open spec fn string_value(self) -> Option<Seq<char>> {
        match self {
            Expression::StringValue(text) => Some(text@),
            _ => None,
        }
    }

    /// Renders the expression as schema text.
    pub fn render_to_string(&self) -> (text: String)
        ensures
            text@ == self.rendered(),
        decreases self,
    {
        match self {
            Expression::NumericValue(text) => text.clone(),
            Expression::BooleanValue(text) => text.clone(),
            Expression::StringValue(text) => {
                proof {
                    reveal_strlit("\"");
                }
                let mut out = String::from_str("\"");
                out.append(text.as_str());
                out.append("\"");
                assert(out@ == seq!['"'] + text@ + seq!['"']);
                out
            },
            Expression::ConstantValue(text) => text.clone(),
            Expression::Function(name, arguments) => {
                proof {
                    reveal_strlit("(");
                    reveal_strlit(")");
                }
                let mut out = name.clone();
                out.append("(");
                let list = render_list(arguments);
                out.append(list.as_str());
                out.append(")");
                assert(out@ == name@ + seq!['('] + rendered_list(arguments@, arguments@.len())
                    + seq![')']);
                out
            },
            Expression::Array(items) => {
                proof {
                    reveal_strlit("[");
                    reveal_strlit("]");
                }
                let mut out = String::from_str("[");
                let list = render_list(items);
                out.append(list.as_str());
                out.append("]");
                assert(out@ == seq!['['] + rendered_list(items@, items@.len()) + seq![']']);
                out
            },
        }
    }
}

/// Renders `items` separated by a comma and a space.
pub fn render_list(items: &Vec<Expression>) -> (text: String)
    ensures
        text@ == rendered_list(items@, items@.len()),
    decreases items,
{
    let mut out = String::new();
    let mut i: usize = 0;
    while i < items.len()
        invariant
            i <= items.len(),
            out@ == rendered_list(items@, i as nat),
        decreases items.len() - i,
    {
        if i > 0 {
            proof {
                reveal_strlit(", ");
            }
            out.append(", ");
        }
        let item = items[i].render_to_string();
        out.append(item.as_str());
        i = i + 1;
    }
    out
}

impl DeepView for Expression {
    type V = ExpressionView;

    open spec fn deep_view(&self) -> ExpressionView {
        ExpressionView { rendered: self.rendered(), string_value: self.string_value() }
    }
}

impl DeepView for Argument {
    type V = ArgumentView;

    open spec fn deep_view(&self) -> ArgumentView {
        ArgumentView { name: self.name.name@, value: self.value.deep_view() }
    }
}

impl DeepView for Directive {
    type V = DirectiveView;

    open spec fn deep_view(&self) -> DirectiveView {
        DirectiveView { name: self.name.name@, arguments: self.arguments.deep_view() }
    }
}

impl DeepView for Field {
    type V = FieldView;

    open spec fn deep_view(&self) -> FieldView {
        FieldView {
            field_type: self.field_type.name@,
            name: self.name.name@,
            arity: self.arity,
            directives: self.directives.deep_view(),
        }
    }
}

impl DeepView for EnumValue {
    type V = EnumValueView;

    open spec fn deep_view(&self) -> EnumValueView {
        EnumValueView { name: self.name@ }
    }
}

impl DeepView for Enum {
    type V = EnumView;

    open spec fn deep_view(&self) -> EnumView {
        EnumView {
            name: self.name.name@,
            values: self.values.deep_view(),
            directives: self.directives.deep_view(),
        }
    }
}

impl DeepView for Model {
    type V = ModelView;

    open spec fn deep_view(&self) -> ModelView {
        ModelView {
            name: self.name.name@,
            fields: self.fields.deep_view(),
            directives: self.directives.deep_view(),
        }
    }
}

impl DeepView for Top {
    type V = TopView;

    open spec fn deep_view(&self) -> TopView {
        match self {
            Top::Enum(e) => TopView::Enum(e.deep_view()),
            Top::Model(m) => TopView::Model(m.deep_view()),
        }
    }
}

impl DeepView for SchemaAst {
    type V = SchemaView;

    open spec fn deep_view(&self) -> SchemaView {
        SchemaView { tops: self.tops.deep_view() }
    }
}

} // verus!
