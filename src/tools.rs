//! The `ask_user` tool: the agent asks a clarifying question instead of guessing.
use vstd::prelude::*;
use crate::text::{chars_of, push_str, string_of, trim, trim_bounds};
use crate::json::{has_at, str_at};

verus! {

/// What a tool call produced.
#[derive(Debug)]
pub struct ToolResult {
    /// Whether the call succeeded.
    pub success: bool,
    /// The output handed back to the agent.
    pub output: String,
    /// The error, when it failed.
    pub error: Option<String>,
}

/// Why an `ask_user` call was refused.
#[derive(Debug, Clone, Copy, PartialEq, Eq, Structural)]
pub enum AskUserError {
    /// The arguments have no `question`.
    MissingQuestion,
    /// `question` is not a string.
    NotAString,
}

impl AskUserError {
    /// A message for the agent.
    pub fn message(&self) -> (r: String)
        ensures
            *self == AskUserError::MissingQuestion ==> r@ == "Missing required parameter 'question'"@,
            *self == AskUserError::NotAString ==> r@ == "'question' must be a string"@,
    {
        let mut r = String::new();
        match self {
            AskUserError::MissingQuestion => push_str(&mut r, "Missing required parameter 'question'"),
            AskUserError::NotAString => push_str(&mut r, "'question' must be a string"),
        }
        r
    }
}

/// The message for an empty question.
pub open spec fn empty_question_message() -> Seq<char> {
    "'question' parameter must not be empty"@
}

/// Asks the user a clarifying question; the question itself is the output, and
/// the user's reply arrives as the thread's next message.
pub struct AskUserTool;

impl AskUserTool {
    /// The tool's name.
    pub fn name(&self) -> (r: &str)
        ensures
            r@ == "ask_user"@,
    {
        "ask_user"
    }

    /// What the tool is for.
    pub fn description(&self) -> (r: &str)
        ensures
            r@.len() > 0,
    {
        proof {
            reveal_strlit("Ask the user a clarifying question when you need more context. Use this instead of guessing when a request is ambiguous.");
        }
        "Ask the user a clarifying question when you need more context. Use this instead of guessing when a request is ambiguous."
    }

    /// The result for a question: the trimmed question, or a failure when
    /// nothing but whitespace was asked.
    pub fn answer(&self, question: &str) -> (r: ToolResult)
        ensures
            trim(question@).len() == 0 ==> !r.success && r.output@ == empty_question_message()
                && (r.error matches Some(e) && e@ == empty_question_message()),
            trim(question@).len() > 0 ==> r.success && r.output@ == trim(question@) && r.error is None,
    {
        let cs = chars_of(question);
        let (lo, hi) = trim_bounds(&cs);
        if lo == hi {
            let mut output = String::new();
            push_str(&mut output, "'question' parameter must not be empty");
            let mut error = String::new();
            push_str(&mut error, "'question' parameter must not be empty");
            return ToolResult { success: false, output, error: Some(error) };
        }
        ToolResult { success: true, output: string_of(&cs, lo, hi), error: None }
    }

    /// Runs the tool on its JSON arguments: `question` must be present and a
    /// string.
    pub fn execute(&self, args: &serde_json::Value) -> (r: Result<ToolResult, AskUserError>)
        ensures
            r matches Err(e) ==> e == AskUserError::MissingQuestion || e == AskUserError::NotAString,
    {
        if !has_at(args, "/question") {
            return Err(AskUserError::MissingQuestion);
        }
        match str_at(args, "/question") {
            None => Err(AskUserError::NotAString),
            Some(q) => Ok(self.answer(q.as_str())),
        }
    }
}

} // verus!
