use std::cell::RefCell;
use std::rc::Rc;

use ai_types::llm::model::Profile;
use ai_types::llm::stream::VecSource;
use ai_types::llm::{categorize, generate, structured_prompt, summarize, GenerateError, LanguageModel,
    Message, Request, Role};

#[derive(Debug, Clone, PartialEq)]
struct StubError(&'static str);

/// A backend that replays fixed chunks and records the conversations it is
/// sent.
struct StubModel {
    chunks: Vec<Result<String, StubError>>,
    seen: Rc<RefCell<Vec<(Role, String)>>>,
}

impl StubModel {
    fn emitting(chunks: &[&str]) -> StubModel {
        StubModel {
            chunks: chunks.iter().map(|s| Ok(s.to_string())).collect(),
            seen: Rc::new(RefCell::new(Vec::new())),
        }
    }
}

impl LanguageModel for StubModel {
    type Stream = VecSource<StubError>;

    fn respond(&self, request: Request) -> VecSource<StubError> {
        let mut seen = self.seen.borrow_mut();
        seen.clear();
        for message in request.messages() {
            seen.push((message.role, message.content.clone()));
        }
        VecSource::new(self.chunks.clone())
    }

    fn complete(&self, _prefix: &str) -> VecSource<StubError> {
        VecSource::new(self.chunks.clone())
    }

    fn profile(&self) -> Profile {
        Profile::new("stub", "A replaying stub", 4096)
    }
}

const TWO_FIELD_SCHEMA: &str = r#"{"type":"object","properties":{"message":{"type":"string"},"count":{"type":"integer"}},"required":["message","count"]}"#;

#[test]
fn test_generate_parses_structured_output() {
    let model = StubModel::emitting(&[r#"{"message":"test","count":42}"#]);
    let request = Request::new(vec![Message::user("Describe the test")]);

    let value = generate(&model, request, TWO_FIELD_SCHEMA).unwrap();

    let expected: serde_json::Value =
        serde_json::from_str(r#"{"message":"test","count":42}"#).unwrap();
    assert_eq!(value, expected);
    assert_eq!(value.get("message").unwrap(), "test");
    assert_eq!(value.get("count").unwrap(), 42);
}

#[test]
fn test_generate_concatenates_chunks() {
    let model = StubModel::emitting(&[r#"{"message""#, r#":"test","#, r#""count":42}"#]);
    let request = Request::new(vec![Message::user("Describe the test")]);

    let value = generate(&model, request, TWO_FIELD_SCHEMA).unwrap();
    assert_eq!(value.get("count").unwrap(), 42);
}

#[test]
fn test_generate_invalid_json_keeps_raw_text() {
    let model = StubModel::emitting(&["this is not json"]);
    let request = Request::new(vec![Message::user("Describe the test")]);

    let result = generate(&model, request, TWO_FIELD_SCHEMA);
    match result {
        Err(GenerateError::SchemaParse { raw, diagnostic }) => {
            assert_eq!(raw, "this is not json");
            assert!(!diagnostic.is_empty());
        }
        other => panic!("expected a schema parse failure, got {other:?}"),
    }
}

#[test]
fn test_generate_propagates_source_error() {
    let model = StubModel {
        chunks: vec![Ok("{".to_string()), Err(StubError("backend failed"))],
        seen: Rc::new(RefCell::new(Vec::new())),
    };
    let request = Request::new(vec![Message::user("Describe the test")]);

    let result = generate(&model, request, TWO_FIELD_SCHEMA);
    match result {
        Err(GenerateError::Source(e)) => assert_eq!(e, StubError("backend failed")),
        other => panic!("expected the backend error, got {other:?}"),
    }
}

#[test]
fn test_generate_appends_schema_instruction() {
    let model = StubModel::emitting(&["{}"]);
    let seen = Rc::clone(&model.seen);
    let request = Request::new(vec![Message::user("Describe the test")]);

    generate(&model, request, TWO_FIELD_SCHEMA).unwrap();

    let seen = seen.borrow();
    assert_eq!(seen.len(), 2);
    assert_eq!(seen[0], (Role::User, "Describe the test".to_string()));
    assert_eq!(seen[1].0, Role::System);
    assert_eq!(seen[1].1, structured_prompt(TWO_FIELD_SCHEMA));
    assert!(seen[1].1.contains(TWO_FIELD_SCHEMA));
    assert!(seen[1].1.contains("ONLY valid JSON"));
    assert!(seen[1].1.contains("Do not include any text before or after the JSON"));
}

#[test]
fn test_summarize_builds_fixed_conversation() {
    let model = StubModel::emitting(&["A summary."]);
    let seen = Rc::clone(&model.seen);

    let stream = summarize(&model, "A very long document.");
    let text = ai_types::llm::stream::text_stream(stream).collect().unwrap();
    assert_eq!(text, "A summary.");

    let seen = seen.borrow();
    assert_eq!(seen.len(), 2);
    assert_eq!(seen[0], (Role::System, "Summarize text:".to_string()));
    assert_eq!(seen[1], (Role::User, "A very long document.".to_string()));
}

#[test]
fn test_categorize_builds_fixed_conversation() {
    let model = StubModel::emitting(&[r#"{"category":"news"}"#]);
    let seen = Rc::clone(&model.seen);

    let value = categorize(&model, "Markets rallied today.", TWO_FIELD_SCHEMA).unwrap();
    assert_eq!(value.get("category").unwrap(), "news");

    let seen = seen.borrow();
    assert_eq!(seen.len(), 3);
    assert_eq!(
        seen[0],
        (Role::System, "Categorize text by provided schema".to_string())
    );
    assert_eq!(seen[1], (Role::User, "Markets rallied today.".to_string()));
    assert_eq!(seen[2].0, Role::System);
}

#[test]
fn test_boxed_model_generates() {
    let model = Box::new(StubModel::emitting(&[r#"{"message":"test","count":42}"#]));
    let request = Request::new(vec![Message::user("Describe the test")]);

    let value = generate(&model, request, TWO_FIELD_SCHEMA).unwrap();
    assert_eq!(value.get("count").unwrap(), 42);
}

#[test]
fn test_request_oneshot() {
    let request = Request::oneshot("You are a helpful assistant", "What is the capital of France?");
    let messages = request.messages();

    assert_eq!(messages.len(), 2);
    assert_eq!(messages[0].role, Role::System);
    assert_eq!(messages[0].content, "You are a helpful assistant");
    assert_eq!(messages[1].role, Role::User);
    assert_eq!(messages[1].content, "What is the capital of France?");
}

#[test]
fn test_request_with_message() {
    let request = Request::new(vec![Message::user("first")])
        .with_message(Message::assistant("second"));
    let messages = request.messages();

    assert_eq!(messages.len(), 2);
    assert_eq!(messages[1].role, Role::Assistant);
    assert_eq!(messages[1].content, "second");
}

#[test]
fn test_structured_prompt_shape() {
    let prompt = structured_prompt("SCHEMA-GOES-HERE");
    assert!(prompt.starts_with(
        "You must respond with valid JSON that strictly conforms to the following JSON schema:"
    ));
    assert!(prompt.contains("SCHEMA-GOES-HERE"));
    assert!(prompt.contains(r#"Example format: {"field1": "value1", "field2": 123}"#));
    assert!(prompt.ends_with("Generate the JSON response now:"));
}
