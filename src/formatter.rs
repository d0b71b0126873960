//! Shared pieces of rendering: argument lists, indented blocks and colors.
use vstd::prelude::*;

use crate::ast::{
    arg_text, args_text, block_text, colorize, indent, indent_lines, lemma_args_prefix_err,
    lemma_block_prefix_err, render,
};
use crate::expression::{emits, is_color_name, lemma_nodes_of, node_of, nodes_of, yields, Expression, RenderError};
use crate::text::{push_str, str_eq, string_of};

verus! {

/// `s` wrapped in the escape sequences of the named color; `s` itself for
/// any name that is not a color.
pub fn colorize_string(color: &str, s: &str) -> (r: String)
    ensures
        r@ == colorize(color@, s@),
{
    let code = if str_eq(color, "red") {
        "31"
    } else if str_eq(color, "green") {
        "32"
    } else if str_eq(color, "yellow") {
        "33"
    } else if str_eq(color, "blue") {
        "34"
    } else if str_eq(color, "magenta") {
        "35"
    } else if str_eq(color, "cyan") {
        "36"
    } else {
        return s.to_owned();
    };
    let mut out: Vec<char> = Vec::new();
    push_str(&mut out, "\\u001b[");
    push_str(&mut out, code);
    push_str(&mut out, "m");
    push_str(&mut out, s);
    push_str(&mut out, "\\u001b[0m");
    string_of(out.as_slice())
}

/// Appends one call argument: a nested call is quoted (color) or captured.
fn arg_to(e: &Expression, out: &mut Vec<char>) -> (r: Result<(), RenderError>)
    ensures
        emits(arg_text(e@), r, old(out)@, final(out)@),
    decreases e, 2int,
{
    let ghost start = out@;
    let ghost t = render(e@);
    match e {
        Expression::FnCall(f) => {
            let color = is_color_name(f.name.lexeme.as_str());
            if color {
                push_str(out, "\"");
            } else {
                push_str(out, "\"$(");
            }
            match e.write_to(out) {
                Ok(()) => {},
                Err(err) => {
                    return Err(err);
                },
            }
            if color {
                push_str(out, "\"");
                assert(out@ =~= start + ("\""@ + t->Ok_0 + "\""@));
            } else {
                push_str(out, ")\"");
                assert(out@ =~= start + ("\"$("@ + t->Ok_0 + ")\""@));
            }
            Ok(())
        },
        _ => e.write_to(out),
    }
}

/// Appends the arguments, space-separated.
pub fn get_args_to(args: &[Expression], out: &mut Vec<char>) -> (r: Result<(), RenderError>)
    ensures
        emits(args_text(nodes_of(args@)), r, old(out)@, final(out)@),
    decreases args@, 0int,
{
    let ghost start = out@;
    let ghost ns = nodes_of(args@);
    proof {
        lemma_nodes_of(args@);
    }
    assert(out@ =~= start + seq![]);
    let mut i: usize = 0;
    while i < args.len()
        invariant
            i <= args@.len(),
            ns == nodes_of(args@),
            ns.len() == args@.len(),
            forall|k: int| 0 <= k < ns.len() ==> #[trigger] ns[k] == node_of(args@[k]),
            args_text(ns.subrange(0, i as int)) is Ok,
            out@ == start + args_text(ns.subrange(0, i as int))->Ok_0,
        decreases args.len() - i,
    {
        let ghost prev = args_text(ns.subrange(0, i as int))->Ok_0;
        let ghost t = arg_text(ns[i as int]);
        proof {
            assert(ns.subrange(0, i + 1).drop_last() =~= ns.subrange(0, i as int));
        }
        if i > 0 {
            push_str(out, " ");
        }
        match arg_to(&args[i], out) {
            Ok(()) => {},
            Err(err) => {
                proof {
                    lemma_args_prefix_err(ns, i + 1);
                }
                return Err(err);
            },
        }
        proof {
            if i > 0 {
                assert(out@ =~= start + (prev + " "@ + t->Ok_0));
            } else {
                assert(out@ =~= start + t->Ok_0);
            }
        }
        i = i + 1;
    }
    assert(ns.subrange(0, i as int) =~= ns);
    Ok(())
}

/// The arguments of a call as shell words, space-separated.
pub fn get_args_as_string(args: &[Expression]) -> (r: Result<String, RenderError>)
    ensures
        yields(args_text(nodes_of(args@)), r),
{
    let mut out: Vec<char> = Vec::new();
    match get_args_to(args, &mut out) {
        Ok(()) => Ok(string_of(out.as_slice())),
        Err(e) => Err(e),
    }
}

/// Appends `text` with each line prefixed by four spaces and ended by a newline.
pub fn indent_to(text: &[char], out: &mut Vec<char>)
    ensures
        final(out)@ == old(out)@ + indent(text@),
{
    let ghost start = out@;
    push_str(out, "    ");
    let mut i: usize = 0;
    while i < text.len()
        invariant
            i <= text@.len(),
            out@ == start + "    "@ + indent_lines(text@.subrange(0, i as int)),
        decreases text.len() - i,
    {
        let c = text[i];
        if c == '\n' {
            push_str(out, "\n    ");
        } else {
            out.push(c);
        }
        assert(text@.subrange(0, i + 1).drop_last() =~= text@.subrange(0, i as int));
        i = i + 1;
    }
    assert(text@.subrange(0, i as int) =~= text@);
    push_str(out, "\n");
    assert(out@ =~= start + ("    "@ + indent_lines(text@) + "\n"@));
}

/// Appends the statements of a block, each indented.
pub fn write_formatted_to(body: &[Expression], out: &mut Vec<char>) -> (r: Result<(), RenderError>)
    ensures
        emits(block_text(nodes_of(body@)), r, old(out)@, final(out)@),
    decreases body@, 0int,
{
    let ghost start = out@;
    let ghost ns = nodes_of(body@);
    proof {
        lemma_nodes_of(body@);
    }
    assert(out@ =~= start + seq![]);
    let mut i: usize = 0;
    while i < body.len()
        invariant
            i <= body@.len(),
            ns == nodes_of(body@),
            ns.len() == body@.len(),
            forall|k: int| 0 <= k < ns.len() ==> #[trigger] ns[k] == node_of(body@[k]),
            block_text(ns.subrange(0, i as int)) is Ok,
            out@ == start + block_text(ns.subrange(0, i as int))->Ok_0,
        decreases body.len() - i,
    {
        let ghost prev = block_text(ns.subrange(0, i as int))->Ok_0;
        proof {
            assert(ns.subrange(0, i + 1).drop_last() =~= ns.subrange(0, i as int));
        }
        let mut text: Vec<char> = Vec::new();
        match body[i].write_to(&mut text) {
            Ok(()) => {},
            Err(err) => {
                proof {
                    lemma_block_prefix_err(ns, i + 1);
                }
                return Err(err);
            },
        }
        assert(text@ =~= render(ns[i as int])->Ok_0);
        indent_to(text.as_slice(), out);
        assert(out@ =~= start + (prev + indent(text@)));
        i = i + 1;
    }
    assert(ns.subrange(0, i as int) =~= ns);
    Ok(())
}

/// The statements of a block, each line indented by four spaces.
pub fn write_formatted_expressions(body: &[Expression]) -> (r: Result<String, RenderError>)
    ensures
        yields(block_text(nodes_of(body@)), r),
{
    let mut out: Vec<char> = Vec::new();
    match write_formatted_to(body, &mut out) {
        Ok(()) => Ok(string_of(out.as_slice())),
        Err(e) => Err(e),
    }
}

} // verus!
