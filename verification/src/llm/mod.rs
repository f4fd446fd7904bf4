//! Language-model interfaces: streaming responses, conversations, tools,
//! and structured generation.
//!
//! [`Request`] carries a conversation to a backend implementing
//! [`LanguageModel`]. The backend answers with a chunk stream
//! ([`stream::TextStream`]); [`generate`] augments the conversation with a
//! JSON-schema instruction, drains that stream, and parses the collected
//! text into a JSON value, so free-text generation is coerced into a typed
//! result.

pub mod message;
pub mod model;
pub mod provider;
pub mod stream;
pub mod tool;

use vstd::prelude::*;

pub use message::{Annotation, Message, Role, UrlAnnotation};
pub use provider::LanguageModelProvider;
pub use tool::Tool;

use crate::llm::model::Profile;
use crate::llm::stream::{collect_spec, collect_text, error_free_prefix, TextStream};

verus! {

/// Declares `serde_json::Value` so parsed JSON values can stand in
/// signatures. Values of it are opaque here: the crate produces and returns
/// them, nothing more.
#[verifier::external_type_specification]
#[verifier::external_body]
pub struct ExJsonValue(serde_json::Value);

/// Declares `serde_json::Error` so the parser's error can be carried out of
/// the trusted parsing call and rendered.
#[verifier::external_type_specification]
#[verifier::external_body]
pub struct ExJsonError(serde_json::Error);

/// The JSON value that the given text parses to, or `None` when the text is
/// not valid JSON. Names the result of `serde_json::from_str` for
/// `serde_json::Value`, which depends on the text alone.
pub uninterp spec fn json_parse(text: Seq<char>) -> Option<serde_json::Value>;

/// Relies on `serde_json::from_str::<serde_json::Value>`: parsing text into
/// a generic JSON value depends on the text alone and succeeds exactly when
/// the text is valid JSON.
#[verifier::external_body]
pub(crate) fn parse_json(text: &str) -> (r: Result<serde_json::Value, serde_json::Error>)
    ensures
        match r {
            Ok(v) => json_parse(text@) == Some(v),
            Err(_) => json_parse(text@) is None,
        },
{
    serde_json::from_str(text)
}

/// Relies on `serde_json::Error`'s `Display` implementation to render the
/// parse diagnostic as text; nothing is assumed about the wording.
#[verifier::external_body]
pub(crate) fn json_error_text(e: &serde_json::Error) -> String {
    e.to_string()
}

/// Why structured generation failed.
#[derive(Debug)]
pub enum GenerateError<E> {
    /// The backend stream failed; its error is passed through verbatim.
    Source(E),
    /// The collected text is not valid JSON; carries the raw backend text
    /// and the parser's diagnostic.
    SchemaParse {
        /// The raw text the backend produced, unchanged.
        raw: String,
        /// The parser's diagnostic.
        diagnostic: String,
    },
}

/// A request to a language model: the conversation to answer.
#[derive(Debug)]
pub struct Request {
    messages: Vec<Message>,
}

impl Request {
    /// The conversation messages, in order.
    pub closed spec fn spec_messages(&self) -> Seq<Message> {
        self.messages@
    }

    /// Creates a new request with the given messages.
    pub fn new(messages: Vec<Message>) -> (r: Request)
        ensures
            r.spec_messages() == messages@,
    {
        Request { messages }
    }

    /// Creates a request for a simple two-message conversation: a system
    /// prompt followed by a user message.
    pub fn oneshot(system: &str, user: &str) -> (r: Request)
        ensures
            r.spec_messages().len() == 2,
            r.spec_messages()[0].role == Role::System,
            r.spec_messages()[0].content@ == system@,
            r.spec_messages()[1].role == Role::User,
            r.spec_messages()[1].content@ == user@,
    {
        let messages = vec![Message::system(system), Message::user(user)];
        Request::new(messages)
    }

    /// Returns the conversation messages to send to the model.
    pub fn messages(&self) -> (r: &[Message])
        ensures
            r@ == self.spec_messages(),
    {
        self.messages.as_slice()
    }

    /// Appends one message to the conversation.
    #[must_use]
    pub fn with_message(self, message: Message) -> (r: Request)
        ensures
            r.spec_messages() == self.spec_messages().push(message),
    {
        let mut r = self;
        r.messages.push(message);
        r
    }
}

/// A text-generating backend. Implementations answer a conversation with a
/// lazy chunk stream; everything this crate layers on top is verified
/// against the [`TextStream`] interface those streams expose.
pub trait LanguageModel: Sized {
    /// The chunk stream this model produces.
    type Stream: TextStream;

    /// Generates a streaming response to the conversation.
    fn respond(&self, request: Request) -> Self::Stream;

    /// Completes the given text prefix.
    fn complete(&self, prefix: &str) -> Self::Stream;

    /// Returns the model's profile and capabilities.
    fn profile(&self) -> Profile;
}

impl<T: LanguageModel> LanguageModel for Box<T> {
    type Stream = T::Stream;

    fn respond(&self, request: Request) -> T::Stream {
        (**self).respond(request)
    }

    fn complete(&self, prefix: &str) -> T::Stream {
        (**self).complete(prefix)
    }

    fn profile(&self) -> Profile {
        (**self).profile()
    }
}

impl<T: LanguageModel> LanguageModel for std::sync::Arc<T> {
    type Stream = T::Stream;

    fn respond(&self, request: Request) -> T::Stream {
        (**self).respond(request)
    }

    fn complete(&self, prefix: &str) -> T::Stream {
        (**self).complete(prefix)
    }

    fn profile(&self) -> Profile {
        (**self).profile()
    }
}

/// The instruction block placed before the rendered schema.
pub open spec fn prompt_lead() -> Seq<char> {
    "You must respond with valid JSON that strictly conforms to the following JSON schema:\n\n"@
}

/// The constraints placed after the rendered schema.
pub open spec fn prompt_rules() -> Seq<char> {
    "\n\nRequirements:\n- Your response must be ONLY valid JSON, no additional text, explanations, or markdown\n- The JSON must exactly match the schema structure and types\n- All required fields must be present\n- Use appropriate data types (strings, numbers, booleans, arrays, objects)\n- Ensure proper JSON syntax with correct quotes, brackets, and commas\n- Do not include any text before or after the JSON\n\nExample format: {\"field1\": \"value1\", \"field2\": 123}\n\nGenerate the JSON response now:"@
}

/// The full instruction text for a given rendered schema: the lead, the
/// schema verbatim, then the formatting rules.
pub open spec fn structured_prompt_text(schema: Seq<char>) -> Seq<char> {
    prompt_lead() + schema + prompt_rules()
}

/// Renders the instruction message content that asks the model to answer
/// with JSON conforming to the given schema, reproduced verbatim.
pub fn structured_prompt(schema: &str) -> (p: String)
    ensures
        p@ == structured_prompt_text(schema@),
{
    let mut p = String::from_str(
        "You must respond with valid JSON that strictly conforms to the following JSON schema:\n\n",
    );
    p.append(schema);
    p.append(
        "\n\nRequirements:\n- Your response must be ONLY valid JSON, no additional text, explanations, or markdown\n- The JSON must exactly match the schema structure and types\n- All required fields must be present\n- Use appropriate data types (strings, numbers, booleans, arrays, objects)\n- Ensure proper JSON syntax with correct quotes, brackets, and commas\n- Do not include any text before or after the JSON\n\nExample format: {\"field1\": \"value1\", \"field2\": 123}\n\nGenerate the JSON response now:",
    );
    p
}

/// Drains a backend's chunk stream and parses the collected text as JSON.
///
/// A stream error propagates unchanged as [`GenerateError::Source`]. When
/// the stream completes, its concatenated text either parses to the JSON
/// value returned, or comes back untouched inside
/// [`GenerateError::SchemaParse`] with the parser's diagnostic: the raw
/// backend text is never discarded silently. On a stream error, the chunks
/// after the failing one are never pulled and no parse is attempted.
pub fn collect_structured<S: TextStream>(stream: &mut S) -> (r: Result<
    serde_json::Value,
    GenerateError<S::Error>,
>)
    ensures
        match collect_spec(old(stream).remaining()) {
            Err(e) => r matches Err(GenerateError::Source(se)) && se == e,
            Ok(text) => match r {
                Ok(v) => json_parse(text) == Some(v),
                Err(ge) => ge matches GenerateError::SchemaParse { raw, .. } && raw@ == text
                    && json_parse(text) is None,
            },
        },
        collect_spec(old(stream).remaining()) is Ok ==> final(stream).remaining().len() == 0,
        collect_spec(old(stream).remaining()) is Err ==> final(stream).remaining() == old(
            stream,
        ).remaining().skip(error_free_prefix(old(stream).remaining()) + 1),
{
    match collect_text(stream) {
        Err(e) => Err(GenerateError::Source(e)),
        Ok(text) => match parse_json(text.as_str()) {
            Ok(v) => Ok(v),
            Err(parse_error) => {
                let diagnostic = json_error_text(&parse_error);
                Err(GenerateError::SchemaParse { raw: text, diagnostic })
            },
        },
    }
}

/// Generates structured output: appends to the conversation one system
/// message holding the schema instruction ([`structured_prompt`]), sends the
/// augmented conversation to the model, drains the response, and parses it
/// as JSON. Parse failures carry text that is not valid JSON; backend
/// failures pass through as [`GenerateError::Source`].
pub fn generate<M: LanguageModel>(model: &M, request: Request, schema: &str) -> (r: Result<
    serde_json::Value,
    GenerateError<<M::Stream as TextStream>::Error>,
>)
    ensures
        r matches Err(GenerateError::SchemaParse { raw, .. }) ==> json_parse(raw@) is None,
{
    let prompt = structured_prompt(schema);
    let request = request.with_message(Message::new(Role::System, prompt));
    let mut stream = model.respond(request);
    collect_structured(&mut stream)
}

/// The fixed two-message conversation that [`summarize`] sends: the
/// summarization instruction, then the text to summarize.
pub fn summarize_request(text: &str) -> (r: Request)
    ensures
        r.spec_messages().len() == 2,
        r.spec_messages()[0].role == Role::System,
        r.spec_messages()[0].content@ == "Summarize text:"@,
        r.spec_messages()[1].role == Role::User,
        r.spec_messages()[1].content@ == text@,
{
    Request::oneshot("Summarize text:", text)
}

/// Summarizes text: sends the fixed conversation of [`summarize_request`]
/// and hands back the model's chunk stream.
pub fn summarize<M: LanguageModel>(model: &M, text: &str) -> M::Stream {
    model.respond(summarize_request(text))
}

/// Categorizes text against a caller-supplied schema: the same algorithm as
/// [`generate`], with a fixed categorization instruction as the
/// conversation.
pub fn categorize<M: LanguageModel>(model: &M, text: &str, schema: &str) -> (r: Result<
    serde_json::Value,
    GenerateError<<M::Stream as TextStream>::Error>,
>)
    ensures
        r matches Err(GenerateError::SchemaParse { raw, .. }) ==> json_parse(raw@) is None,
{
    generate(model, Request::oneshot("Categorize text by provided schema", text), schema)
}

} // verus!
