//! Tool calls: what a tool step says, and the title that it is shown under.

use vstd::prelude::*;
use crate::adapter::Adapter;
use crate::json::json_read;
use crate::json::opt_tree;
use crate::json::parse_json;
use crate::json::Json;
use crate::json::JsonTree;
use crate::proto::proto_field;
use crate::proto::proto_text;
use crate::text;

verus! {

/// The name of a tool and the input that it was called with.
pub struct ToolCallView {
    pub name: Seq<char>,
    pub input: Option<JsonTree>,
}

/// The first of two that is there.
pub open spec fn first_of<T>(a: Option<T>, b: Option<T>) -> Option<T> {
    match a {
        Some(_) => a,
        None => b,
    }
}

/// The name of the tool in a call: field 2 or, without that, field 9, if it is not empty.
pub open spec fn tool_name(call: Seq<u8>) -> Option<Seq<char>> {
    match first_of(proto_text(call, 2), proto_text(call, 9)) {
        Some(name) => if name.len() > 0 {
            Some(name)
        } else {
            None
        },
        None => None,
    }
}

/// The input in a call: field 3, where that is a JSON text.
pub open spec fn tool_input(call: Seq<u8>) -> Option<JsonTree> {
    match proto_text(call, 3) {
        Some(input) => json_read(input),
        None => None,
    }
}

/// The tool call that a step payload carries: field 4 of field 5, if it names a tool.
pub open spec fn step_tool(blob: Seq<u8>) -> Option<ToolCallView> {
    match proto_field(blob, 5) {
        Some(tool) => match proto_field(tool, 4) {
            Some(call) => match tool_name(call) {
                Some(name) => Some(ToolCallView { name, input: tool_input(call) }),
                None => None,
            },
            None => None,
        },
        None => None,
    }
}

/// The path that an input names.
pub open spec fn input_path(input: JsonTree) -> Option<Seq<char>> {
    first_of(
        input.text_member("path"@),
        first_of(
            input.text_member("file"@),
            first_of(input.text_member("AbsolutePath"@), input.text_member("FilePath"@)),
        ),
    )
}

/// What an input asks for.
pub open spec fn input_query(input: JsonTree) -> Option<Seq<char>> {
    first_of(
        input.text_member("query"@),
        first_of(input.text_member("command"@), input.text_member("text"@)),
    )
}

/// The first sixty characters, or all of them.
pub open spec fn shortened(s: Seq<char>) -> Seq<char> {
    if s.len() <= 60 {
        s
    } else {
        s.take(60)
    }
}

/// The title of a tool call: the name and, where the input has them, the path or else the
/// first sixty characters of what is asked for.
pub open spec fn tool_title(name: Seq<char>, input: Option<JsonTree>) -> Seq<char> {
    match input {
        Some(v) => match input_path(v) {
            Some(path) => name + ": "@ + path,
            None => match input_query(v) {
                Some(query) => name + ": "@ + shortened(query),
                None => name,
            },
        },
        None => name,
    }
}

/// The first of two that is there.
fn either<'a>(a: Option<&'a str>, b: Option<&'a str>) -> (r: Option<&'a str>)
    ensures
        r == first_of(a, b),
{
    match a {
        Some(s) => Some(s),
        None => b,
    }
}

impl Adapter {
    /// The tool call of a step payload: field 5, a sub-message, in it field 4, the call,
    /// and there field 2 or 9, the name, and field 3, the input as JSON.
    pub fn extract_tool_from_step_payload(blob: &[u8]) -> (r: Option<(String, Option<Json>)>)
        ensures
            match r {
                Some((name, input)) => step_tool(blob@) == Some(
                    ToolCallView { name: name@, input: opt_tree(input) },
                ),
                None => step_tool(blob@) is None,
            },
    {
        let tool = match Self::get_proto_field(blob, 5) {
            Some(tool) => tool,
            None => {
                return None;
            },
        };
        let call = match Self::get_proto_field(tool.as_slice(), 4) {
            Some(call) => call,
            None => {
                return None;
            },
        };
        let name = match Self::get_proto_text(call.as_slice(), 2) {
            Some(name) => name,
            None => match Self::get_proto_text(call.as_slice(), 9) {
                Some(name) => name,
                None => {
                    return None;
                },
            },
        };
        if name.as_str().is_empty() {
            return None;
        }
        let input = match Self::get_proto_text(call.as_slice(), 3) {
            Some(s) => parse_json(s.as_str()),
            None => None,
        };
        Some((name, input))
    }

    /// A short title for a tool call.
    pub fn tool_call_title(name: &str, input: &Option<Json>) -> (r: String)
        ensures
            r@ == tool_title(name@, opt_tree(*input)),
    {
        if let Some(v) = input {
            let path = either(
                v.text_member("path"),
                either(
                    v.text_member("file"),
                    either(v.text_member("AbsolutePath"), v.text_member("FilePath")),
                ),
            );
            if let Some(p) = path {
                return text::concat(text::concat(name, ": ").as_str(), p);
            }
            let query = either(
                v.text_member("query"),
                either(v.text_member("command"), v.text_member("text")),
            );
            if let Some(q) = query {
                let short = text::first_chars(q, 60);
                return text::concat(text::concat(name, ": ").as_str(), short.as_str());
            }
        }
        name.to_owned()
    }
}

/// The title of a tool call begins with the name of the tool, and is short unless the
/// input names a path.
pub proof fn titles_begin_with_the_name(name: Seq<char>, input: Option<JsonTree>)
    ensures
        name.is_prefix_of(tool_title(name, input)),
        input is None || input_path(input->0) is None ==> tool_title(name, input).len()
            <= name.len() + 62,
{
    reveal_strlit(": ");
}

/// What is asked for, as a title shows it: all of it, or its first sixty characters.
pub open spec fn shown(query: Seq<char>, part: Seq<char>) -> bool {
    &&& part.is_prefix_of(query)
    &&& part.len() == query.len() || part.len() == 60
    &&& part.len() <= 60
}

/// The title of a tool call is the name of the tool and, after a colon and a space, the
/// path that the input names under the first of four names that it has, in full; or else
/// what it asks for under the first of three names, up to sixty characters.
pub proof fn titles_say_what_is_worked_on(name: Seq<char>, input: JsonTree)
    ensures
        tool_title(name, None) == name,
        ({
            let title = tool_title(name, Some(input));
            let path = input.text_member("path"@);
            let file = input.text_member("file"@);
            let absolute = input.text_member("AbsolutePath"@);
            let other = input.text_member("FilePath"@);
            let query = input.text_member("query"@);
            let command = input.text_member("command"@);
            let plain = input.text_member("text"@);
            let lead = name + ": "@;
            if path is Some {
                title == lead + path->0
            } else if file is Some {
                title == lead + file->0
            } else if absolute is Some {
                title == lead + absolute->0
            } else if other is Some {
                title == lead + other->0
            } else if query is Some {
                exists|part: Seq<char>| #[trigger] shown(query->0, part) && title == lead + part
            } else if command is Some {
                exists|part: Seq<char>| #[trigger] shown(command->0, part) && title == lead + part
            } else if plain is Some {
                exists|part: Seq<char>| #[trigger] shown(plain->0, part) && title == lead + part
            } else {
                title == name
            }
        }),
{
    match input_query(input) {
        Some(query) => {
            let part = shortened(query);
            assert(query.subrange(0, part.len() as int) =~= part);
            assert(shown(query, part));
        },
        None => {},
    }
}

/// A tool call is read from field 4 of field 5: the tool is named by field 2 of it, whatever
/// field 9 holds, or by field 9 where there is no text in field 2, and the name is not
/// empty; the input is what is read from the text of field 3.
pub proof fn tool_calls_are_read_from_their_fields(blob: Seq<u8>, tool: Seq<u8>, call: Seq<u8>)
    ensures
        proto_field(blob, 5) is None ==> step_tool(blob) is None,
        proto_field(blob, 5) == Some(tool) && proto_field(tool, 4) is None ==> step_tool(
            blob,
        ) is None,
        proto_field(blob, 5) == Some(tool) && proto_field(tool, 4) == Some(call) ==> {
            let second = proto_text(call, 2);
            let ninth = proto_text(call, 9);
            let read = step_tool(blob);
            &&& second is Some && second->0.len() == 0 ==> read is None
            &&& second is Some && second->0.len() > 0 ==> read is Some && read->0.name == second->0
            &&& second is None && ninth is None ==> read is None
            &&& second is None && ninth is Some && ninth->0.len() == 0 ==> read is None
            &&& second is None && ninth is Some && ninth->0.len() > 0 ==> read is Some
                && read->0.name == ninth->0
            &&& read is Some && proto_text(call, 3) is None ==> read->0.input is None
            &&& read is Some && proto_text(call, 3) is Some ==> read->0.input == json_read(
                proto_text(call, 3)->0,
            )
        },
{
}

} // verus!
