//! The TypeScript declaration of the bindings.
//!
//! The bindings are declared as one constant `Assets` whose type spells
//! them out: a group is a type literal with one member per binding, an
//! asset is the string literal type of its identifier.

use vstd::prelude::*;
use crate::bindings::{lemma_named_views, named_views, AssetBinding, Binding, NamedBinding,
    NamedView};
use crate::typescript::ts_ast::{is_bare_identifier, render_modifier_seq, render_modifiers,
    render_signatures, render_statements, Expression, ModifierToken,
    PropertySignature, Statement, VariableDeclaration, VariableKind};
use crate::typescript::ts_stream::StreamState;

verus! {

/// A member of a type literal: its name and the text of its type.
pub struct Member {
    pub name: Seq<char>,
    pub text: Seq<char>,
}

/// A member on a line of its own: the name, in brackets and quotes where it
/// is no bare identifier, a colon, the type, and a semicolon.
pub open spec fn render_member(member: Member, st: StreamState) -> StreamState {
    if is_bare_identifier(member.name) {
        st.write(member.name).write(": "@).write(member.text).write(";\n"@)
    } else {
        st.write("[\""@).write(member.name).write("\"]: "@).write(member.text).write(";\n"@)
    }
}

/// The members, one after the other.
pub open spec fn render_members(members: Seq<Member>, st: StreamState) -> StreamState
    decreases members.len(),
{
    if members.len() == 0 {
        st
    } else {
        render_member(members.last(), render_members(members.drop_last(), st))
    }
}

/// A type literal: `{`, the members one level deeper, and `}`.
pub open spec fn render_type_literal(members: Seq<Member>, st: StreamState) -> StreamState {
    render_members(members, st.write("{\n"@).indented()).unindented().write("}"@)
}

/// A string literal printed on its own.
pub open spec fn string_literal_text(value: Seq<char>) -> Seq<char> {
    StreamState::start().write("\""@).write(value).write("\""@).text
}

/// The members that stand for `entries`.
pub open spec fn ts_members(entries: Seq<NamedView>) -> Seq<Member>
    decreases entries, 1nat,
{
    if entries.len() == 0 {
        Seq::empty()
    } else {
        ts_members(entries.drop_last()).push(
            Member { name: entries.last().name, text: ts_text(entries.last().binding) },
        )
    }
}

/// The type that stands for a binding, printed on its own.
pub open spec fn ts_text(binding: Binding) -> Seq<char>
    decreases binding, 0nat,
{
    match binding {
        Binding::Asset(uri) => string_literal_text(uri),
        Binding::Group(entries) => render_type_literal(ts_members(entries), StreamState::start()).text,
    }
}

/// The declaration file for `bindings`: the constant `Assets` with its
/// type, and its export.
pub open spec fn ts_declaration(bindings: Seq<NamedView>) -> Seq<char> {
    render_type_literal(
        ts_members(bindings),
        StreamState::start().write("declare"@).write(" "@).write("const"@).write(" "@).write(
            "Assets"@,
        ).write(": "@),
    ).write(";\n"@).write("export = "@).write("Assets"@).write(";\n"@).text
}

/// The signatures are the members: same names, no modifiers, and types
/// that print as the members' texts.
pub open spec fn signatures_match(signatures: Seq<PropertySignature>, members: Seq<Member>) -> bool {
    &&& signatures.len() == members.len()
    &&& forall|i: int|
        0 <= i < signatures.len() ==> {
            &&& (#[trigger] signatures[i]).name@ == members[i].name
            &&& signatures[i].modifiers is None
            &&& signatures[i].expression.text() == members[i].text
        }
}

/// Signatures that are the members print as the members do.
pub proof fn lemma_signatures_render(
    signatures: Seq<PropertySignature>,
    members: Seq<Member>,
    st: StreamState,
)
    requires
        signatures_match(signatures, members),
    ensures
        render_signatures(signatures, st) == render_members(members, st),
    decreases signatures.len(),
{
    if signatures.len() > 0 {
        let front = signatures.drop_last();
        let fewer = members.drop_last();
        assert(signatures_match(front, fewer)) by {
            assert forall|i: int| 0 <= i < front.len() implies {
                &&& (#[trigger] front[i]).name@ == fewer[i].name
                &&& front[i].modifiers is None
                &&& front[i].expression.text() == fewer[i].text
            } by {
                assert(front[i] == signatures[i]);
            }
        }
        lemma_signatures_render(front, fewer, st);
        let last = signatures[signatures.len() - 1];
        let member = members[members.len() - 1];
        let before = render_signatures(front, st);
        assert(last.name@ == member.name);
        assert(last.modifiers is None);
        assert(last.expression.text() == member.text);
        assert(render_modifiers(last.modifiers, before) == before);
        assert(last.render(before) == render_member(member, before));
    }
}

/// The members that stand for the bindings `entries`.
fn ts_signatures(entries: &Vec<NamedBinding>) -> (signatures: Vec<PropertySignature>)
    ensures
        signatures_match(signatures@, ts_members(named_views(entries@))),
    decreases entries, 1nat,
{
    let mut signatures: Vec<PropertySignature> = Vec::new();
    let mut i: usize = 0;
    proof {
        lemma_named_views(entries@);
        assert(named_views(entries@).take(0) =~= Seq::<NamedView>::empty());
    }
    while i < entries.len()
        invariant
            i <= entries.len(),
            named_views(entries@).len() == entries.len(),
            forall|k: int|
                0 <= k < entries.len() ==> (#[trigger] named_views(entries@)[k]) == (NamedView {
                    name: entries@[k].name@,
                    binding: entries@[k].binding.view(),
                }),
            signatures@.len() == i,
            signatures_match(signatures@, ts_members(named_views(entries@).take(i as int))),
        decreases entries.len() - i,
    {
        let ghost views = named_views(entries@);
        let ghost before = signatures@;
        let ghost members = ts_members(views.take(i as int));
        let expression = ts_type(&entries[i].binding);
        signatures.push(PropertySignature::new(entries[i].name.clone(), None, expression));
        proof {
            assert(views.take(i + 1).drop_last() =~= views.take(i as int));
            assert(views.take(i + 1).last() == views[i as int]);
            let grown = ts_members(views.take(i + 1));
            assert(grown == members.push(
                Member { name: views[i as int].name, text: ts_text(views[i as int].binding) },
            ));
            assert forall|k: int| 0 <= k < signatures@.len() implies {
                &&& (#[trigger] signatures@[k]).name@ == grown[k].name
                &&& signatures@[k].modifiers is None
                &&& signatures@[k].expression.text() == grown[k].text
            } by {
                if k < i {
                    assert(signatures@[k] == before[k]);
                }
            }
        }
        i += 1;
    }
    assert(named_views(entries@).take(entries@.len() as int) =~= named_views(entries@));
    signatures
}

/// The type that stands for a binding.
pub fn ts_type(binding: &AssetBinding) -> (expression: Expression)
    ensures
        expression.text() == ts_text(binding.view()),
    decreases binding, 0nat,
{
    match binding {
        AssetBinding::Asset { uri } => Expression::StringLiteral(uri.clone()),
        AssetBinding::Group { entries } => {
            let signatures = ts_signatures(entries);
            proof {
                lemma_signatures_render(
                    signatures@,
                    ts_members(named_views(entries@)),
                    StreamState::start().write("{\n"@).indented(),
                );
            }
            Expression::TypeLiteral(signatures)
        },
    }
}

/// A text without a line feed, written first in a stream, is the text of
/// the stream.
proof fn lemma_identifier_text(name: Seq<char>)
    requires
        name.len() > 0,
        !name.contains('\n'),
    ensures
        StreamState::start().write(name).text == name,
{
    crate::typescript::ts_stream::lemma_write_line_start(StreamState::start(), name);
    assert(crate::typescript::ts_stream::tabs(0) =~= Seq::<char>::empty());
    assert(Seq::<char>::empty() + Seq::<char>::empty() + name =~= name);
}

/// The statements of the declaration file for `bindings`.
pub fn ts_statement(bindings: &Vec<NamedBinding>) -> (statement: Statement)
    ensures
        statement.text() == ts_declaration(named_views(bindings@)),
{
    let signatures = ts_signatures(bindings);
    let mut modifiers: Vec<ModifierToken> = Vec::new();
    modifiers.push(ModifierToken::Declare);
    let declaration = VariableDeclaration::new(
        String::from_str("Assets"),
        VariableKind::Const,
        Some(Expression::TypeLiteral(signatures)),
        Some(modifiers),
        None,
    );
    let export = Statement::export_assignment(Expression::Identifier(String::from_str("Assets")));
    let mut statements: Vec<Statement> = Vec::new();
    statements.push(declaration);
    statements.push(export);
    proof {
        let start = StreamState::start();
        let members = ts_members(named_views(bindings@));
        assert(modifiers@.drop_last() =~= Seq::<ModifierToken>::empty());
        assert(render_modifier_seq(modifiers@.drop_last(), start) == start);
        assert(render_modifier_seq(modifiers@, start) == start.write("declare"@).write(" "@));
        let opened = start.write("declare"@).write(" "@).write("const"@).write(" "@).write(
            "Assets"@,
        ).write(": "@);
        lemma_signatures_render(signatures@, members, opened.write("{\n"@).indented());
        let declared = render_type_literal(members, opened).write(";\n"@);
        assert(declaration.render(start) == declared);
        reveal_strlit("Assets");
        assert(!"Assets"@.contains('\n'));
        lemma_identifier_text("Assets"@);
        assert(export.render(declared) == declared.write("export = "@).write("Assets"@).write(
            ";\n"@,
        ));
        let one = statements@.drop_last();
        assert(one.drop_last() =~= Seq::<Statement>::empty());
        assert(render_statements(one.drop_last(), start) == start);
        assert(one.last() == declaration);
        assert(render_statements(one, start) == declared);
        assert(statements@.last() == export);
    }
    Statement::list(statements)
}

/// The declaration file for `bindings`.
pub fn render_typescript(bindings: &Vec<NamedBinding>) -> (text: String)
    ensures
        text@ == ts_declaration(named_views(bindings@)),
{
    ts_statement(bindings).to_string()
}

} // verus!
