//! The stand-alone tool table: the same built-in tools, dispatched by name.
use vstd::prelude::*;
use crate::local::{local_action_spec, local_definitions, local_tool_definitions, is_local_action, LocalAction, LocalToolArgs, LocalToolkit};
use crate::text::{concat2, texts};

verus! {

/// Reply for a tool name that nothing provides.
pub open spec fn unknown_function_text(name: Seq<char>) -> Seq<char> {
    "Error: Unknown function "@ + name
}

/// The reply for an unknown tool is recorded as a tool error.
pub proof fn lemma_unknown_function_is_error(name: Seq<char>)
    ensures
        crate::audit::status_of(unknown_function_text(name)) == "tool_returned_error"@,
{
    reveal_strlit("Error:");
    reveal_strlit("Error: Unknown function ");
    assert("Error:"@ =~= unknown_function_text(name).subrange(0, 6));
}

/// `Error: Unknown function <name>`.
pub fn unknown_function_reply(name: &str) -> (res: String)
    ensures
        res@ == unknown_function_text(name@),
{
    concat2("Error: Unknown function ", name)
}

/// The tool specifications for the model (the built-in `Read`, `Write` and `Bash`).
pub fn get_tool_definitions() -> (res: Vec<String>)
    ensures
        texts(res@) == local_tool_definitions(),
{
    local_definitions()
}

/// What a call of tool `name` asks for: a built-in action, or a reply that the function is
/// unknown.
pub fn tool_action(name: &str, args: LocalToolArgs) -> (res: LocalAction)
    ensures
        if local_action_spec(name@, args) is Some {
            is_local_action(name@, args, Some(res))
        } else {
            res matches LocalAction::Respond { text } && text@ == unknown_function_text(name@)
        },
{
    match LocalToolkit.plan(name, args) {
        Some(action) => action,
        None => LocalAction::Respond { text: unknown_function_reply(name) },
    }
}

} // verus!
