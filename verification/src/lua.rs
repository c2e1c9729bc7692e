//! The Lua module of the bindings.
//!
//! The module returns one table: a group is a table with one field per
//! binding, an asset is the string of its identifier.

use vstd::prelude::*;
use crate::bindings::{lemma_named_views, named_views, AssetBinding, Binding, NamedBinding,
    NamedView};
use crate::typescript::ts_ast::{is_bare_identifier, is_bare_identifier_name};
use crate::typescript::ts_stream::{StreamState, TSStream};

verus! {

/// A field on a line of its own: the name, in brackets and quotes where it
/// is no bare identifier, ` = `, the value, and a comma.
pub open spec fn render_field(name: Seq<char>, value: Seq<char>, st: StreamState) -> StreamState {
    if is_bare_identifier(name) {
        st.write(name).write(" = "@).write(value).write(",\n"@)
    } else {
        st.write("[\""@).write(name).write("\"] = "@).write(value).write(",\n"@)
    }
}

/// The fields that stand for `entries`, one after the other.
pub open spec fn render_fields(entries: Seq<NamedView>, st: StreamState) -> StreamState
    decreases entries, 1nat,
{
    if entries.len() == 0 {
        st
    } else {
        render_field(
            entries.last().name,
            lua_text(entries.last().binding),
            render_fields(entries.drop_last(), st),
        )
    }
}

/// A table: `{`, the fields one level deeper, and `}`.
pub open spec fn render_table(entries: Seq<NamedView>, st: StreamState) -> StreamState
    decreases entries, 2nat,
{
    render_fields(entries, st.write("{\n"@).indented()).unindented().write("}"@)
}

/// The value that stands for a binding, printed on its own.
pub open spec fn lua_text(binding: Binding) -> Seq<char>
    decreases binding, 0nat,
{
    match binding {
        Binding::Asset(uri) => StreamState::start().write("\""@).write(uri).write("\""@).text,
        Binding::Group(entries) => render_table(entries, StreamState::start()).text,
    }
}

/// The module for `bindings`: `return`, their table, and a line feed.
pub open spec fn lua_module(bindings: Seq<NamedView>) -> Seq<char> {
    render_table(bindings, StreamState::start().write("return "@)).write("\n"@).text
}

/// Prints the table of `entries`.
fn write_table(entries: &Vec<NamedBinding>, output: &mut TSStream)
    requires
        old(output)@.indent < usize::MAX,
    ensures
        final(output)@ == render_table(named_views(entries@), old(output)@),
        final(output)@.indent == old(output)@.indent,
    decreases entries, 1nat,
{
    output.write_str("{\n");
    output.indent();
    let ghost opened = output@;
    let mut i: usize = 0;
    proof {
        lemma_named_views(entries@);
        assert(named_views(entries@).take(0) =~= Seq::<NamedView>::empty());
    }
    while i < entries.len()
        invariant
            i <= entries.len(),
            named_views(entries@).len() == entries.len(),
            forall|k: int|
                0 <= k < entries.len() ==> (#[trigger] named_views(entries@)[k]) == (NamedView {
                    name: entries@[k].name@,
                    binding: entries@[k].binding.view(),
                }),
            output@ == render_fields(named_views(entries@).take(i as int), opened),
            output@.indent == opened.indent,
        decreases entries.len() - i,
    {
        proof {
            let views = named_views(entries@);
            assert(views.take(i + 1).drop_last() =~= views.take(i as int));
            assert(views.take(i + 1).last() == views[i as int]);
        }
        let value = lua_value(&entries[i].binding);
        if is_bare_identifier_name(entries[i].name.as_str()) {
            output.write_str(entries[i].name.as_str());
            output.write_str(" = ");
        } else {
            output.write_str("[\"");
            output.write_str(entries[i].name.as_str());
            output.write_str("\"] = ");
        }
        output.write_str(value.as_str());
        output.write_str(",\n");
        i += 1;
    }
    assert(named_views(entries@).take(entries@.len() as int) =~= named_views(entries@));
    output.unindent();
    output.write_str("}");
}

/// The value that stands for a binding.
pub fn lua_value(binding: &AssetBinding) -> (text: String)
    ensures
        text@ == lua_text(binding.view()),
    decreases binding, 0nat,
{
    let mut stream = TSStream::new();
    match binding {
        AssetBinding::Asset { uri } => {
            stream.write_str("\"");
            stream.write_str(uri.as_str());
            stream.write_str("\"");
        },
        AssetBinding::Group { entries } => {
            write_table(entries, &mut stream);
        },
    }
    stream.into_string()
}

/// The module for `bindings`.
pub fn render_lua(bindings: &Vec<NamedBinding>) -> (text: String)
    ensures
        text@ == lua_module(named_views(bindings@)),
{
    let mut stream = TSStream::new();
    stream.write_str("return ");
    write_table(bindings, &mut stream);
    stream.write_str("\n");
    stream.into_string()
}

} // verus!
