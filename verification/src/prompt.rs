//! Prompt assembly and the chat-completion exchange: the fixed section
//! order of the request payload, the request body the API receives, and
//! how its response is classified.

use vstd::prelude::*;

use crate::text::{is_blank, is_blank_str};

verus! {

/// One chat message, a role and its text.
pub struct Message {
    pub role: String,
    pub content: String,
}

/// The request body for the chat-completion API.
pub struct ChatRequest {
    pub model: String,
    pub messages: Vec<Message>,
}

/// The message inside one response choice.
pub struct ChoiceMessage {
    pub content: String,
}

/// One choice of a chat-completion response.
pub struct Choice {
    pub message: ChoiceMessage,
}

/// The decoded subset of a chat-completion response.
pub struct ChatResponse {
    pub choices: Vec<Choice>,
}

/// The assembled prompt: five labeled sections in fixed order, none ever
/// omitted.
pub open spec fn spec_assemble_prompt(
    current_datetime: Seq<char>,
    output_file_name_ext: Seq<char>,
    definitions: Seq<char>,
    template_text: Seq<char>,
    cleaned_notebook: Seq<char>,
) -> Seq<char> {
    "Current date time: "@ + current_datetime + "\n\nNotebook filename: "@ + output_file_name_ext
        + "\n\nDefinitions: "@ + definitions + "\n\nDocumentation template: "@ + template_text
        + "\n\nCode: "@ + cleaned_notebook
}

/// Concatenates the five prompt sections in their fixed order, exactly as
/// `spec_assemble_prompt` lays them out.
pub fn assemble_prompt(
    current_datetime: &str,
    output_file_name_ext: &str,
    definitions: &str,
    template_text: &str,
    cleaned_notebook: &str,
) -> (r: String)
    ensures
        r@ == spec_assemble_prompt(
            current_datetime@,
            output_file_name_ext@,
            definitions@,
            template_text@,
            cleaned_notebook@,
        ),
{
    let mut r = String::from_str("Current date time: ");
    r.append(current_datetime);
    r.append("\n\nNotebook filename: ");
    r.append(output_file_name_ext);
    r.append("\n\nDefinitions: ");
    r.append(definitions);
    r.append("\n\nDocumentation template: ");
    r.append(template_text);
    r.append("\n\nCode: ");
    r.append(cleaned_notebook);
    proof {
        assert(r@ =~= spec_assemble_prompt(
            current_datetime@,
            output_file_name_ext@,
            definitions@,
            template_text@,
            cleaned_notebook@,
        ));
    }
    r
}

/// Relies on chrono's `Utc::now` and chrono-tz's `Europe::Amsterdam`: the
/// current Amsterdam wall-clock time, formatted as date and time. The
/// clock decides the value, so nothing is promised of it.
#[verifier::external_body]
fn current_timestamp_amsterdam() -> (r: String) {
    chrono::Utc::now().with_timezone(&chrono_tz::Europe::Amsterdam).format(
        "%Y-%m-%d %H:%M:%S",
    ).to_string()
}

/// Assembles the prompt around the current timestamp: the result is the
/// fixed five-section layout for some timestamp text.
pub fn build_prompt(
    output_file_name_ext: &str,
    definitions: &str,
    template_text: &str,
    cleaned_notebook: &str,
) -> (r: String)
    ensures
        exists|dt: Seq<char>|
            r@ == spec_assemble_prompt(
                dt,
                output_file_name_ext@,
                definitions@,
                template_text@,
                cleaned_notebook@,
            ),
{
    let ts = current_timestamp_amsterdam();
    let r = assemble_prompt(
        ts.as_str(),
        output_file_name_ext,
        definitions,
        template_text,
        cleaned_notebook,
    );
    proof {
        assert(r@ == spec_assemble_prompt(
            ts@,
            output_file_name_ext@,
            definitions@,
            template_text@,
            cleaned_notebook@,
        ));
    }
    r
}

/// The chat-completion endpoint for the configured base, task and
/// version.
pub fn build_api_url(base: &str, task: &str, version: &str) -> (r: String)
    ensures
        r@ == base@ + "/models/chat/"@ + task@ + "?api-version="@ + version@,
{
    let mut r = String::from_str(base);
    r.append("/models/chat/");
    r.append(task);
    r.append("?api-version=");
    r.append(version);
    proof {
        assert(r@ =~= base@ + "/models/chat/"@ + task@ + "?api-version="@ + version@);
    }
    r
}

/// The request body: the configured model, a system message carrying the
/// context text, and a user message carrying the prompt.
pub fn build_chat_request(model: String, context_text: String, prompt: String) -> (r: ChatRequest)
    ensures
        r.model == model,
        r.messages@.len() == 2,
        r.messages@[0].role@ == "system"@,
        r.messages@[0].content == context_text,
        r.messages@[1].role@ == "user"@,
        r.messages@[1].content == prompt,
{
    let system_message = Message { role: String::from_str("system"), content: context_text };
    let user_message = Message { role: String::from_str("user"), content: prompt };
    let mut messages: Vec<Message> = Vec::new();
    messages.push(system_message);
    messages.push(user_message);
    ChatRequest { model, messages }
}

/// How a decoded response is acted on.
#[derive(Debug)]
pub enum ResponseOutcome {
    /// The first choice carries usable text: print and persist it.
    Content(String),
    /// The first choice's text is empty or whitespace: report, write
    /// nothing.
    EmptyContent,
    /// The response carries no choices: report, write nothing.
    NoChoices,
}

/// Classifies a decoded response: no choices, a first choice with blank
/// content, or the first choice's content as it stands.
pub fn classify_chat_response(response: &ChatResponse) -> (r: ResponseOutcome)
    ensures
        (match r {
            ResponseOutcome::NoChoices => response.choices@.len() == 0,
            ResponseOutcome::EmptyContent => response.choices@.len() > 0 && is_blank(
                response.choices@[0].message.content@,
            ),
            ResponseOutcome::Content(c) => response.choices@.len() > 0 && !is_blank(
                response.choices@[0].message.content@,
            ) && c == response.choices@[0].message.content,
        }),
{
    if response.choices.len() == 0 {
        return ResponseOutcome::NoChoices;
    }
    let content = &response.choices[0].message.content;
    if is_blank_str(content.as_str()) {
        ResponseOutcome::EmptyContent
    } else {
        ResponseOutcome::Content(content.clone())
    }
}

} // verus!
