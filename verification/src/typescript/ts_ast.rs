//! A small TypeScript syntax tree and its printed form.
//!
//! Every node says what it writes to a stream as a function from the state
//! of the stream before to the state after (`render`). An expression that
//! stands inside a larger line (a property's type, the right side of an
//! export) is printed on a stream of its own first, and the text is then
//! written to the outer stream, which indents its lines once more.

use vstd::prelude::*;
use crate::text::{alphabetic, alphanumeric, chars_of, is_alphabetic, is_alphanumeric,
    signed_decimal, signed_decimal_string};
use crate::typescript::ts_stream::{StreamState, TSStream};

verus! {

/// A keyword in front of a declaration or a property.
#[derive(Debug, Clone, Copy, PartialEq, Eq, Structural)]
pub enum ModifierToken {
    Export,
    Readonly,
    Declare,
}

impl ModifierToken {
    /// The keyword as it is printed.
    pub open spec fn spec_str(self) -> Seq<char> {
        match self {
            ModifierToken::Export => "export"@,
            ModifierToken::Declare => "declare"@,
            ModifierToken::Readonly => "readonly"@,
        }
    }

    /// The keyword as it is printed.
    pub fn as_str(&self) -> (word: &'static str)
        ensures
            word@ == self.spec_str(),
    {
        match self {
            ModifierToken::Export => "export",
            ModifierToken::Declare => "declare",
            ModifierToken::Readonly => "readonly",
        }
    }
}

/// The modifiers of `tokens`, each followed by a blank.
pub open spec fn render_modifier_seq(tokens: Seq<ModifierToken>, st: StreamState) -> StreamState
    decreases tokens.len(),
{
    if tokens.len() == 0 {
        st
    } else {
        render_modifier_seq(tokens.drop_last(), st).write(tokens.last().spec_str()).write(" "@)
    }
}

/// The modifiers, where there are any.
pub open spec fn render_modifiers(
    modifiers: Option<Vec<ModifierToken>>,
    st: StreamState,
) -> StreamState {
    match modifiers {
        Some(tokens) => render_modifier_seq(tokens@, st),
        None => st,
    }
}

/// Whether a property of this name can be written without brackets: its
/// first character is a letter and all its characters are letters or digits.
pub open spec fn is_bare_identifier(name: Seq<char>) -> bool {
    &&& name.len() > 0
    &&& alphabetic(name[0])
    &&& forall|i: int| 0 <= i < name.len() ==> alphanumeric(#[trigger] name[i])
}

/// The kind of a variable declaration.
#[derive(Debug, Clone, Copy, PartialEq, Eq, Structural)]
pub enum VariableKind {
    Const,
}

/// Where a span stands in a template literal.
#[derive(Debug, Clone, Copy, PartialEq, Eq, Structural)]
pub enum TemplateSpanKind {
    Middle,
    Tail,
}

/// The text of a template literal before its first substitution.
#[derive(Debug)]
pub struct TemplateHead {
    pub text: String,
}

/// A substitution in a template literal and the text behind it.
#[derive(Debug)]
pub struct TemplateSpan {
    pub expression: Expression,
    pub literal: String,
    pub span_kind: TemplateSpanKind,
}

/// A template literal: a head and its spans, the last of which is a tail.
#[derive(Debug)]
pub struct TemplateLiteralExpression {
    pub head: TemplateHead,
    pub template_spans: Vec<TemplateSpan>,
}

/// The type of a function: its parameters and what it returns.
#[derive(Debug)]
pub struct FunctionType {
    pub parameters: Vec<Parameter>,
    pub return_type: Box<Expression>,
}

/// A member of an interface or of a type literal.
#[derive(Debug)]
pub struct PropertySignature {
    pub name: String,
    pub modifiers: Option<Vec<ModifierToken>>,
    pub expression: Expression,
}

/// A type, or a union of types.
#[derive(Debug)]
pub enum TypeReference {
    Expression(Expression),
    Union(Vec<TypeReference>),
}

/// A parameter of a function type.
#[derive(Debug)]
pub struct Parameter {
    pub name: String,
    pub param_type: TypeReference,
}

/// An expression, in a type or a value position.
#[derive(Debug)]
pub enum Expression {
    Identifier(String),
    StringLiteral(String),
    TemplateLiteral(TemplateLiteralExpression),
    NumericLiteral(i32),
    TypeLiteral(Vec<PropertySignature>),
    FunctionType(FunctionType),
}

/// `export = <expression>;`
#[derive(Debug)]
pub struct ExportAssignment {
    pub expression: Expression,
}

/// `const <name>: <type> = <expression>;`
#[derive(Debug)]
pub struct VariableDeclaration {
    pub name: String,
    pub kind: VariableKind,
    pub type_expression: Option<Expression>,
    pub modifiers: Option<Vec<ModifierToken>>,
    pub expression: Option<Expression>,
}

/// `interface <name> { <members> }`
#[derive(Debug)]
pub struct InterfaceDeclaration {
    pub name: String,
    pub modifiers: Option<Vec<ModifierToken>>,
    pub members: Vec<PropertySignature>,
}

/// `type <name> = <type>;`
#[derive(Debug)]
pub struct TypeAliasDeclaration {
    pub name: String,
    pub type_expression: Expression,
}

/// A comment on a line of its own.
#[derive(Debug)]
pub enum Comment {
    Single(String),
    Multiline(String),
}

/// A statement at the top level of a file.
#[derive(Debug)]
pub enum Statement {
    InterfaceDeclaration(InterfaceDeclaration),
    TypeAliasDeclaration(TypeAliasDeclaration),
    VariableDeclaration(VariableDeclaration),
    ExportAssignment(ExportAssignment),
    Comment(Comment),
    List(Vec<Statement>),
}

/// The members of a type literal or an interface, one after the other.
pub open spec fn render_signatures(members: Seq<PropertySignature>, st: StreamState) -> StreamState
    decreases members,
{
    if members.len() == 0 {
        st
    } else {
        members.last().render(render_signatures(members.drop_last(), st))
    }
}

/// The parameters of a function type, with `, ` between them.
pub open spec fn render_parameters(parameters: Seq<Parameter>, st: StreamState) -> StreamState
    decreases parameters,
{
    if parameters.len() == 0 {
        st
    } else {
        let before = render_parameters(parameters.drop_last(), st);
        let before = if parameters.len() > 1 {
            before.write(", "@)
        } else {
            before
        };
        parameters.last().param_type.render(before.write(parameters.last().name@).write(": "@))
    }
}

/// The members of a union, with ` | ` between them.
pub open spec fn render_union(types: Seq<TypeReference>, st: StreamState) -> StreamState
    decreases types,
{
    if types.len() == 0 {
        st
    } else {
        let before = render_union(types.drop_last(), st);
        let before = if types.len() > 1 {
            before.write(" | "@)
        } else {
            before
        };
        types.last().render(before)
    }
}

/// The spans of a template literal, up to and with its first tail.
pub open spec fn render_spans(spans: Seq<TemplateSpan>, st: StreamState) -> StreamState
    decreases spans,
{
    if spans.len() == 0 {
        st
    } else {
        let span = spans[0];
        let after = span.expression.render(st.write("${"@)).write("}"@).write(span.literal@);
        if span.span_kind == TemplateSpanKind::Middle {
            render_spans(spans.drop_first(), after)
        } else {
            after.write("`"@)
        }
    }
}

/// The statements of a list, one after the other.
pub open spec fn render_statements(statements: Seq<Statement>, st: StreamState) -> StreamState
    decreases statements,
{
    if statements.len() == 0 {
        st
    } else {
        statements.last().render(render_statements(statements.drop_last(), st))
    }
}

impl Expression {
    /// What the expression writes to a stream in state `st`.
    pub open spec fn render(self, st: StreamState) -> StreamState
        decreases self, 0nat,
    {
        match self {
            Expression::Identifier(ident) => st.write(ident@),
            Expression::StringLiteral(literal) => st.write("\""@).write(literal@).write("\""@),
            Expression::NumericLiteral(literal) => st.write(signed_decimal(literal as int)),
            Expression::TypeLiteral(members) => render_signatures(
                members@,
                st.write("{\n"@).indented(),
            ).unindented().write("}"@),
            Expression::TemplateLiteral(literal) => render_spans(
                literal.template_spans@,
                st.write("`"@).write(literal.head.text@),
            ),
            Expression::FunctionType(func) => func.render(st),
        }
    }

    /// The expression printed on its own.
    pub open spec fn text(self) -> Seq<char>
        decreases self, 1nat,
    {
        self.render(StreamState::start()).text
    }
}

impl FunctionType {
    /// `(<parameters>) => <return type>`
    pub open spec fn render(self, st: StreamState) -> StreamState
        decreases self,
    {
        self.return_type.render(render_parameters(self.parameters@, st.write("("@)).write(") => "@))
    }
}

impl TypeReference {
    /// A type printed on its own and written as text, or the members of a
    /// union.
    pub open spec fn render(self, st: StreamState) -> StreamState
        decreases self,
    {
        match self {
            TypeReference::Expression(inner) => st.write(inner.text()),
            TypeReference::Union(types) => render_union(types@, st),
        }
    }
}

impl PropertySignature {
    /// `<modifiers> <name>: <type>;` and a line feed, the name in brackets
    /// and quotes where it is no bare identifier.
    pub open spec fn render(self, st: StreamState) -> StreamState
        decreases self,
    {
        let st = render_modifiers(self.modifiers, st);
        if is_bare_identifier(self.name@) {
            st.write(self.name@).write(": "@).write(self.expression.text()).write(";\n"@)
        } else {
            st.write("[\""@).write(self.name@).write("\"]: "@).write(self.expression.text()).write(
                ";\n"@,
            )
        }
    }
}

impl VariableDeclaration {
    /// `<modifiers> const <name>[: <type>][ = <value>];` and a line feed.
    pub open spec fn render(self, st: StreamState) -> StreamState {
        let st = render_modifiers(self.modifiers, st).write("const"@).write(" "@).write(self.name@);
        let st = match self.type_expression {
            Some(type_expression) => type_expression.render(st.write(": "@)),
            None => st,
        };
        let st = match self.expression {
            Some(expression) => expression.render(st.write(" = "@)),
            None => st,
        };
        st.write(";\n"@)
    }
}

impl InterfaceDeclaration {
    /// `<modifiers> interface <name> {`, the members one level deeper, `}`.
    pub open spec fn render(self, st: StreamState) -> StreamState {
        render_signatures(
            self.members@,
            render_modifiers(self.modifiers, st).write("interface "@).write(self.name@).write(
                " {\n"@,
            ).indented(),
        ).unindented().write("}\n"@)
    }
}

impl Comment {
    /// `// <text>` or `/*<text>*/`, and a line feed.
    pub open spec fn render(self, st: StreamState) -> StreamState {
        match self {
            Comment::Single(text) => st.write("// "@).write(text@).write("\n"@),
            Comment::Multiline(text) => st.write("/*"@).write(text@).write("*/\n"@),
        }
    }
}

impl Statement {
    /// What the statement writes to a stream in state `st`.
    pub open spec fn render(self, st: StreamState) -> StreamState
        decreases self,
    {
        match self {
            Statement::InterfaceDeclaration(declaration) => declaration.render(st),
            Statement::VariableDeclaration(declaration) => declaration.render(st),
            Statement::ExportAssignment(export) => st.write("export = "@).write(
                export.expression.text(),
            ).write(";\n"@),
            Statement::TypeAliasDeclaration(alias) => st.write("type "@).write(alias.name@).write(
                " = "@,
            ).write(alias.type_expression.text()).write(";\n"@),
            Statement::Comment(comment) => comment.render(st),
            Statement::List(statements) => render_statements(statements@, st),
        }
    }

    /// The statement printed on its own.
    pub open spec fn text(self) -> Seq<char> {
        self.render(StreamState::start()).text
    }
}

/// Whether a property of this name can be written without brackets.
pub fn is_bare_identifier_name(name: &str) -> (bare: bool)
    ensures
        bare == is_bare_identifier(name@),
{
    let chars = chars_of(name);
    if chars.len() == 0 || !is_alphabetic(chars[0]) {
        return false;
    }
    let mut i: usize = 0;
    while i < chars.len()
        invariant
            i <= chars.len(),
            chars@ == name@,
            forall|j: int| 0 <= j < i ==> alphanumeric(#[trigger] name@[j]),
        decreases chars.len() - i,
    {
        if !is_alphanumeric(chars[i]) {
            return false;
        }
        i += 1;
    }
    true
}

fn fmt_modifiers(modifiers: &Option<Vec<ModifierToken>>, output: &mut TSStream)
    ensures
        final(output)@ == render_modifiers(*modifiers, old(output)@),
        final(output)@.indent == old(output)@.indent,
{
    match modifiers {
        Some(tokens) => {
            let mut i: usize = 0;
            while i < tokens.len()
                invariant
                    i <= tokens.len(),
                    output@ == render_modifier_seq(tokens@.take(i as int), old(output)@),
                    output@.indent == old(output)@.indent,
                decreases tokens.len() - i,
            {
                assert(tokens@.take(i + 1).drop_last() =~= tokens@.take(i as int));
                output.write_str(tokens[i].as_str());
                output.write_str(" ");
                i += 1;
            }
            assert(tokens@.take(tokens@.len() as int) =~= tokens@);
        },
        None => {},
    }
}

fn fmt_signatures(members: &Vec<PropertySignature>, output: &mut TSStream)
    ensures
        final(output)@ == render_signatures(members@, old(output)@),
        final(output)@.indent == old(output)@.indent,
    decreases members,
{
    let mut i: usize = 0;
    while i < members.len()
        invariant
            i <= members.len(),
            output@ == render_signatures(members@.take(i as int), old(output)@),
            output@.indent == old(output)@.indent,
        decreases members.len() - i,
    {
        assert(members@.take(i + 1).drop_last() =~= members@.take(i as int));
        members[i].fmt_ts(output);
        i += 1;
    }
    assert(members@.take(members@.len() as int) =~= members@);
}

fn fmt_parameters(parameters: &Vec<Parameter>, output: &mut TSStream)
    ensures
        final(output)@ == render_parameters(parameters@, old(output)@),
        final(output)@.indent == old(output)@.indent,
    decreases parameters,
{
    let mut i: usize = 0;
    while i < parameters.len()
        invariant
            i <= parameters.len(),
            output@ == render_parameters(parameters@.take(i as int), old(output)@),
            output@.indent == old(output)@.indent,
        decreases parameters.len() - i,
    {
        assert(parameters@.take(i + 1).drop_last() =~= parameters@.take(i as int));
        if i > 0 {
            output.write_str(", ");
        }
        output.write_str(parameters[i].name.as_str());
        output.write_str(": ");
        parameters[i].param_type.fmt_ts(output);
        i += 1;
    }
    assert(parameters@.take(parameters@.len() as int) =~= parameters@);
}

fn fmt_union(types: &Vec<TypeReference>, output: &mut TSStream)
    ensures
        final(output)@ == render_union(types@, old(output)@),
        final(output)@.indent == old(output)@.indent,
    decreases types,
{
    let mut i: usize = 0;
    while i < types.len()
        invariant
            i <= types.len(),
            output@ == render_union(types@.take(i as int), old(output)@),
            output@.indent == old(output)@.indent,
        decreases types.len() - i,
    {
        assert(types@.take(i + 1).drop_last() =~= types@.take(i as int));
        if i > 0 {
            output.write_str(" | ");
        }
        types[i].fmt_ts(output);
        i += 1;
    }
    assert(types@.take(types@.len() as int) =~= types@);
}

fn fmt_spans(spans: &Vec<TemplateSpan>, output: &mut TSStream)
    requires
        old(output)@.indent < usize::MAX,
    ensures
        final(output)@ == render_spans(spans@, old(output)@),
        final(output)@.indent == old(output)@.indent,
    decreases spans,
{
    let mut i: usize = 0;
    assert(spans@.skip(0) =~= spans@);
    while i < spans.len()
        invariant
            i <= spans.len(),
            render_spans(spans@, old(output)@) == render_spans(spans@.skip(i as int), output@),
            output@.indent == old(output)@.indent,
            output@.indent < usize::MAX,
        decreases spans.len() - i,
    {
        assert(spans@.skip(i as int)[0] == spans@[i as int]);
        assert(spans@.skip(i as int).drop_first() =~= spans@.skip(i + 1));
        output.write_str("${");
        spans[i].expression.fmt_ts(output);
        output.write_str("}");
        output.write_str(spans[i].literal.as_str());
        match spans[i].span_kind {
            TemplateSpanKind::Middle => {},
            TemplateSpanKind::Tail => {
                output.write_str("`");
                return;
            },
        }
        i += 1;
    }
}

fn fmt_statements(statements: &Vec<Statement>, output: &mut TSStream)
    requires
        old(output)@.indent < usize::MAX,
    ensures
        final(output)@ == render_statements(statements@, old(output)@),
        final(output)@.indent == old(output)@.indent,
    decreases statements,
{
    let mut i: usize = 0;
    while i < statements.len()
        invariant
            i <= statements.len(),
            output@ == render_statements(statements@.take(i as int), old(output)@),
            output@.indent == old(output)@.indent,
            output@.indent < usize::MAX,
        decreases statements.len() - i,
    {
        assert(statements@.take(i + 1).drop_last() =~= statements@.take(i as int));
        statements[i].fmt_ts(output);
        i += 1;
    }
    assert(statements@.take(statements@.len() as int) =~= statements@);
}

impl FunctionType {
    pub fn new(parameters: Vec<Parameter>, return_type: Expression) -> (func: FunctionType)
        ensures
            func.parameters == parameters,
            *func.return_type == return_type,
    {
        FunctionType { parameters, return_type: Box::new(return_type) }
    }

    /// Prints the function type.
    pub fn fmt_ts(&self, output: &mut TSStream)
        requires
            old(output)@.indent < usize::MAX,
        ensures
            final(output)@ == self.render(old(output)@),
            final(output)@.indent == old(output)@.indent,
        decreases self,
    {
        output.write_str("(");
        fmt_parameters(&self.parameters, output);
        output.write_str(") => ");
        self.return_type.fmt_ts(output);
    }
}

impl PropertySignature {
    pub fn new(
        name: String,
        modifiers: Option<Vec<ModifierToken>>,
        expression: Expression,
    ) -> (signature: PropertySignature)
        ensures
            signature.name == name,
            signature.modifiers == modifiers,
            signature.expression == expression,
    {
        PropertySignature { name, modifiers, expression }
    }

    /// Prints the member on a line of its own.
    pub fn fmt_ts(&self, output: &mut TSStream)
        ensures
            final(output)@ == self.render(old(output)@),
            final(output)@.indent == old(output)@.indent,
        decreases self,
    {
        fmt_modifiers(&self.modifiers, output);
        let expression = self.expression.to_string();
        if is_bare_identifier_name(self.name.as_str()) {
            output.write_str(self.name.as_str());
            output.write_str(": ");
        } else {
            output.write_str("[\"");
            output.write_str(self.name.as_str());
            output.write_str("\"]: ");
        }
        output.write_str(expression.as_str());
        output.write_str(";\n");
    }
}

impl TypeReference {
    /// The type named `id`.
    pub fn id(id: String) -> (reference: TypeReference)
        ensures
            reference == TypeReference::Expression(Expression::Identifier(id)),
    {
        TypeReference::Expression(Expression::Identifier(id))
    }

    /// The type of the single number `value`.
    pub fn num(value: i32) -> (reference: TypeReference)
        ensures
            reference == TypeReference::Expression(Expression::NumericLiteral(value)),
    {
        TypeReference::Expression(Expression::NumericLiteral(value))
    }

    /// The union of `inner`.
    pub fn union(inner: Vec<TypeReference>) -> (reference: TypeReference)
        ensures
            reference == TypeReference::Union(inner),
    {
        TypeReference::Union(inner)
    }

    /// Prints the type.
    pub fn fmt_ts(&self, output: &mut TSStream)
        ensures
            final(output)@ == self.render(old(output)@),
            final(output)@.indent == old(output)@.indent,
        decreases self,
    {
        match self {
            TypeReference::Expression(inner) => {
                let text = inner.to_string();
                output.write_str(text.as_str());
            },
            TypeReference::Union(types) => fmt_union(types, output),
        }
    }
}

impl Parameter {
    pub fn new(name: String, param_type: TypeReference) -> (parameter: Parameter)
        ensures
            parameter.name == name,
            parameter.param_type == param_type,
    {
        Parameter { name, param_type }
    }
}

impl VariableDeclaration {
    pub fn new(
        name: String,
        kind: VariableKind,
        type_expression: Option<Expression>,
        modifiers: Option<Vec<ModifierToken>>,
        expression: Option<Expression>,
    ) -> (statement: Statement)
        ensures
            statement == Statement::VariableDeclaration(
                VariableDeclaration { name, kind, type_expression, modifiers, expression },
            ),
    {
        Statement::VariableDeclaration(
            VariableDeclaration { name, kind, type_expression, modifiers, expression },
        )
    }

    /// Prints the declaration on a line of its own.
    pub fn fmt_ts(&self, output: &mut TSStream)
        requires
            old(output)@.indent < usize::MAX,
        ensures
            final(output)@ == self.render(old(output)@),
            final(output)@.indent == old(output)@.indent,
    {
        fmt_modifiers(&self.modifiers, output);
        match self.kind {
            VariableKind::Const => output.write_str("const"),
        }
        output.write_str(" ");
        output.write_str(self.name.as_str());
        match &self.type_expression {
            Some(type_expression) => {
                output.write_str(": ");
                type_expression.fmt_ts(output);
            },
            None => {},
        }
        match &self.expression {
            Some(expression) => {
                output.write_str(" = ");
                expression.fmt_ts(output);
            },
            None => {},
        }
        output.write_str(";\n");
    }
}

impl InterfaceDeclaration {
    pub fn new(
        name: String,
        modifiers: Option<Vec<ModifierToken>>,
        members: Vec<PropertySignature>,
    ) -> (declaration: InterfaceDeclaration)
        ensures
            declaration.name == name,
            declaration.modifiers == modifiers,
            declaration.members == members,
    {
        InterfaceDeclaration { name, modifiers, members }
    }

    /// Prints the interface, its members one level deeper.
    pub fn fmt_ts(&self, output: &mut TSStream)
        requires
            old(output)@.indent < usize::MAX,
        ensures
            final(output)@ == self.render(old(output)@),
            final(output)@.indent == old(output)@.indent,
    {
        fmt_modifiers(&self.modifiers, output);
        output.write_str("interface ");
        output.write_str(self.name.as_str());
        output.write_str(" {\n");
        output.indent();
        fmt_signatures(&self.members, output);
        output.unindent();
        output.write_str("}\n");
    }
}

impl TemplateLiteralExpression {
    /// A template literal with the text `head` before its first span.
    pub fn new(head: String, template_spans: Vec<TemplateSpan>) -> (expression: Expression)
        ensures
            expression == Expression::TemplateLiteral(
                TemplateLiteralExpression { head: TemplateHead { text: head }, template_spans },
            ),
    {
        Expression::TemplateLiteral(
            TemplateLiteralExpression { head: TemplateHead { text: head }, template_spans },
        )
    }

    /// A span that another span follows.
    pub fn middle(expression: Expression, literal: String) -> (span: TemplateSpan)
        ensures
            span == (TemplateSpan { expression, literal, span_kind: TemplateSpanKind::Middle }),
    {
        TemplateSpan { expression, literal, span_kind: TemplateSpanKind::Middle }
    }

    /// The span that ends the literal.
    pub fn tail(expression: Expression, literal: String) -> (span: TemplateSpan)
        ensures
            span == (TemplateSpan { expression, literal, span_kind: TemplateSpanKind::Tail }),
    {
        TemplateSpan { expression, literal, span_kind: TemplateSpanKind::Tail }
    }
}

impl Expression {
    /// Prints the expression.
    pub fn fmt_ts(&self, output: &mut TSStream)
        requires
            old(output)@.indent < usize::MAX,
        ensures
            final(output)@ == self.render(old(output)@),
            final(output)@.indent == old(output)@.indent,
        decreases self, 0nat,
    {
        match self {
            Expression::Identifier(ident) => output.write_str(ident.as_str()),
            Expression::StringLiteral(literal) => {
                output.write_str("\"");
                output.write_str(literal.as_str());
                output.write_str("\"");
            },
            Expression::NumericLiteral(literal) => {
                let digits = signed_decimal_string(*literal);
                output.write_str(digits.as_str());
            },
            Expression::TypeLiteral(members) => {
                output.write_str("{\n");
                output.indent();
                fmt_signatures(members, output);
                output.unindent();
                output.write_str("}");
            },
            Expression::TemplateLiteral(literal) => {
                output.write_str("`");
                output.write_str(literal.head.text.as_str());
                fmt_spans(&literal.template_spans, output);
            },
            Expression::FunctionType(func) => func.fmt_ts(output),
        }
    }

    /// The expression printed on its own.
    pub fn to_string(&self) -> (text: String)
        ensures
            text@ == self.text(),
        decreases self, 1nat,
    {
        let mut stream = TSStream::new();
        self.fmt_ts(&mut stream);
        stream.into_string()
    }
}

impl Comment {
    /// A comment between `/*` and `*/`.
    pub fn multiline(text: String) -> (statement: Statement)
        ensures
            statement == Statement::Comment(Comment::Multiline(text)),
    {
        Statement::Comment(Comment::Multiline(text))
    }

    /// A comment behind `//`.
    pub fn singleline(text: String) -> (statement: Statement)
        ensures
            statement == Statement::Comment(Comment::Single(text)),
    {
        Statement::Comment(Comment::Single(text))
    }

    /// Prints the comment on a line of its own.
    pub fn fmt_ts(&self, output: &mut TSStream)
        ensures
            final(output)@ == self.render(old(output)@),
            final(output)@.indent == old(output)@.indent,
    {
        match self {
            Comment::Single(text) => {
                output.write_str("// ");
                output.write_str(text.as_str());
                output.write_str("\n");
            },
            Comment::Multiline(text) => {
                output.write_str("/*");
                output.write_str(text.as_str());
                output.write_str("*/\n");
            },
        }
    }
}

impl Statement {
    /// `export = <expression>;`
    pub fn export_assignment(expression: Expression) -> (statement: Statement)
        ensures
            statement == Statement::ExportAssignment(ExportAssignment { expression }),
    {
        Statement::ExportAssignment(ExportAssignment { expression })
    }

    /// The statements of `statements`, one after the other.
    pub fn list(statements: Vec<Statement>) -> (statement: Statement)
        ensures
            statement == Statement::List(statements),
    {
        Statement::List(statements)
    }

    /// Prints the statement.
    pub fn fmt_ts(&self, output: &mut TSStream)
        requires
            old(output)@.indent < usize::MAX,
        ensures
            final(output)@ == self.render(old(output)@),
            final(output)@.indent == old(output)@.indent,
        decreases self,
    {
        match self {
            Statement::InterfaceDeclaration(declaration) => declaration.fmt_ts(output),
            Statement::VariableDeclaration(declaration) => declaration.fmt_ts(output),
            Statement::ExportAssignment(export) => {
                let text = export.expression.to_string();
                output.write_str("export = ");
                output.write_str(text.as_str());
                output.write_str(";\n");
            },
            Statement::TypeAliasDeclaration(alias) => {
                let text = alias.type_expression.to_string();
                output.write_str("type ");
                output.write_str(alias.name.as_str());
                output.write_str(" = ");
                output.write_str(text.as_str());
                output.write_str(";\n");
            },
            Statement::Comment(comment) => comment.fmt_ts(output),
            Statement::List(statements) => fmt_statements(statements, output),
        }
    }

    /// The statement printed on its own.
    pub fn to_string(&self) -> (text: String)
        ensures
            text@ == self.text(),
    {
        let mut stream = TSStream::new();
        self.fmt_ts(&mut stream);
        stream.into_string()
    }
}

} // verus!
