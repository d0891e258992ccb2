//! The compiler from dialogue sources to programs. It gives each node of the
//! source a node of the program, named by the node's `title` header.

use vstd::prelude::*;
use vstd::hash_map::StringHashMap;
use crate::machine::LineInfo;
use crate::parser::ast::Header;
use crate::parser::{dialogue_of, headers_view, nodes_view, parse_string, HeaderView, ParseError};
use crate::program::{empty_node, Node, NodeView, Program, ProgramView};

verus! {

/// The title among the first `count` headers: the value of the last of them
/// whose key is `title`, and the empty text where there is none.
pub open spec fn title_of(headers: Seq<HeaderView>, count: nat) -> Seq<char>
    decreases count,
{
    if count == 0 {
        Seq::empty()
    } else if headers[count - 1].key == "title"@ {
        headers[count - 1].value
    } else {
        title_of(headers, (count - 1) as nat)
    }
}

/// The nodes of the program for the first `count` nodes of a dialogue: under
/// the title of each, a node of that name without instructions, labels or
/// tags. Of two nodes with one title the later stands.
pub open spec fn compiled(nodes: Seq<Seq<HeaderView>>, count: nat) -> Map<Seq<char>, NodeView>
    decreases count,
{
    if count == 0 {
        Map::empty()
    } else {
        compiled(nodes, (count - 1) as nat).insert(
            title_of(nodes[count - 1], nodes[count - 1].len()),
            empty_node(title_of(nodes[count - 1], nodes[count - 1].len())),
        )
    }
}

/// Each compiled node stands under its own name, and has no instructions,
/// labels or tags.
pub proof fn lemma_compiled_names(nodes: Seq<Seq<HeaderView>>, count: nat)
    ensures
        forall|key: Seq<char>| #[trigger]
            compiled(nodes, count).contains_key(key) ==> compiled(nodes, count)[key] == empty_node(
                key,
            ),
    decreases count,
{
    if count > 0 {
        lemma_compiled_names(nodes, (count - 1) as nat);
        let earlier = compiled(nodes, (count - 1) as nat);
        let name = title_of(nodes[count - 1], nodes[count - 1].len());
        assert forall|key: Seq<char>| #[trigger]
            compiled(nodes, count).contains_key(key) implies compiled(nodes, count)[key]
            == empty_node(key) by {
            if key != name {
                assert(earlier.contains_key(key));
            }
        }
    }
}

/// The title of a node.
fn title(headers: &Vec<Header>) -> (name: String)
    ensures
        name@ == title_of(headers_view(headers@), headers@.len()),
{
    let mut name = String::new();
    let mut i: usize = 0;
    while i < headers.len()
        invariant
            i <= headers.len(),
            name@ == title_of(headers_view(headers@), i as nat),
        decreases headers.len() - i,
    {
        if headers[i].key == "title".to_owned() {
            name = headers[i].value.clone();
        }
        i += 1;
    }
    name
}

/// Compiles a source: the program, and the table of its lines. Each node of
/// the program stands under its own name.
pub fn compile_string(src: &str) -> (result: Result<
    (Program, StringHashMap<LineInfo>),
    ParseError,
>)
    ensures
        match result {
            Ok((program, string_table)) => dialogue_of(src@) matches Ok(nodes) && program@
                == (ProgramView {
                name: Seq::empty(),
                nodes: compiled(nodes, nodes.len()),
                initial_values: Map::empty(),
            }) && string_table@ == Map::<Seq<char>, LineInfo>::empty(),
            Err(error) => dialogue_of(src@) == Err::<Seq<Seq<HeaderView>>, ParseError>(error),
        },
        result matches Ok((program, _)) ==> forall|key: Seq<char>| #[trigger]
            program@.nodes.contains_key(key) ==> program@.nodes[key] == empty_node(key),
{
    let ast = match parse_string(src) {
        Ok(ast) => ast,
        Err(error) => {
            return Err(error);
        },
    };
    let mut program = Program::new();
    let string_table: StringHashMap<LineInfo> = StringHashMap::new();
    let ghost nodes = nodes_view(ast.nodes@);
    let mut i: usize = 0;
    while i < ast.nodes.len()
        invariant
            i <= ast.nodes.len(),
            nodes == nodes_view(ast.nodes@),
            program@ == (ProgramView {
                name: Seq::empty(),
                nodes: compiled(nodes, i as nat),
                initial_values: Map::empty(),
            }),
        decreases ast.nodes.len() - i,
    {
        let name = title(&ast.nodes[i].headers);
        let proto_node = Node::new(name.clone());
        let ghost before = program@.nodes;
        program.nodes.insert(name, proto_node);
        assert(program@.nodes =~= before.insert(
            title_of(nodes[i as int], nodes[i as int].len()),
            empty_node(title_of(nodes[i as int], nodes[i as int].len())),
        ));
        i += 1;
    }
    proof {
        lemma_compiled_names(nodes, nodes.len());
    }
    Ok((program, string_table))
}

} // verus!
