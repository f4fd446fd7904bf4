use std::cell::RefCell;
use std::rc::Rc;

use ai_types::llm::tool::{CallError, DefModel, Tool, ToolDefinition, ToolError, Tools};

const CALCULATOR_SCHEMA: &str = r#"{"type":"object","properties":{"operation":{"type":"string"},"a":{"type":"number"},"b":{"type":"number"}},"required":["operation","a","b"]}"#;
const GREETER_SCHEMA: &str =
    r#"{"type":"object","properties":{"name":{"type":"string"}},"required":["name"]}"#;

#[derive(Debug)]
enum TestTool {
    Calculator {
        description: &'static str,
        calls: Rc<RefCell<usize>>,
    },
    Greeter,
    Echo,
}

fn calculator() -> TestTool {
    TestTool::Calculator {
        description: "Performs basic mathematical operations",
        calls: Rc::new(RefCell::new(0)),
    }
}

fn decode_number(value: &serde_json::Value, field: &str) -> Result<f64, ToolError> {
    value
        .get(field)
        .and_then(serde_json::Value::as_f64)
        .ok_or_else(|| ToolError::Decode {
            diagnostic: format!("missing or invalid field: {field}"),
        })
}

impl Tool for TestTool {
    // Ghost member of the trait; never called at runtime.
    fn spec_definition(&self) -> DefModel {
        unreachable!()
    }

    fn definition(&self) -> ToolDefinition {
        match self {
            TestTool::Calculator { description, .. } => {
                ToolDefinition::new("calculator", description, CALCULATOR_SCHEMA)
            }
            TestTool::Greeter => {
                ToolDefinition::new("greeter", "Greets a person by name", GREETER_SCHEMA)
            }
            TestTool::Echo => ToolDefinition::new("echo", "Echoes its argument text", "{}"),
        }
    }

    fn call(&mut self, arguments: &str) -> Result<String, ToolError> {
        if let TestTool::Echo = self {
            return Ok(arguments.to_string());
        }
        let value: serde_json::Value =
            serde_json::from_str(arguments).map_err(|e| ToolError::Decode {
                diagnostic: e.to_string(),
            })?;
        match self {
            TestTool::Calculator { calls, .. } => {
                let operation = value
                    .get("operation")
                    .and_then(serde_json::Value::as_str)
                    .ok_or_else(|| ToolError::Decode {
                        diagnostic: "missing or invalid field: operation".to_string(),
                    })?
                    .to_string();
                let a = decode_number(&value, "a")?;
                let b = decode_number(&value, "b")?;
                *calls.borrow_mut() += 1;
                match operation.as_str() {
                    "add" => Ok((a + b).to_string()),
                    "subtract" => Ok((a - b).to_string()),
                    "multiply" => Ok((a * b).to_string()),
                    "divide" => {
                        if b == 0.0 {
                            Err(ToolError::Execution {
                                message: "Division by zero".to_string(),
                            })
                        } else {
                            Ok((a / b).to_string())
                        }
                    }
                    _ => Err(ToolError::Execution {
                        message: format!("Unknown operation: {operation}"),
                    }),
                }
            }
            TestTool::Greeter => {
                let name = value
                    .get("name")
                    .and_then(serde_json::Value::as_str)
                    .ok_or_else(|| ToolError::Decode {
                        diagnostic: "missing or invalid field: name".to_string(),
                    })?;
                Ok(format!("Hello, {name}!"))
            }
            TestTool::Echo => unreachable!(),
        }
    }
}

#[test]
fn test_tool_definition_creation() {
    let definition = calculator().definition();

    assert_eq!(definition.name, "calculator");
    assert_eq!(
        definition.description,
        "Performs basic mathematical operations"
    );
}

#[test]
fn test_tools_creation() {
    let tools: Tools<TestTool> = Tools::new();
    assert_eq!(tools.definitions().len(), 0);
}

#[test]
fn test_tools_default() {
    let tools: Tools<TestTool> = Tools::default();
    assert_eq!(tools.definitions().len(), 0);
}

#[test]
fn test_tools_register_and_call() {
    let mut tools = Tools::new();
    tools.register(calculator());

    let definitions = tools.definitions();
    assert_eq!(definitions.len(), 1);
    assert_eq!(definitions[0].name, "calculator");

    let result = tools.call("calculator", r#"{"operation": "add", "a": 5, "b": 3}"#);
    assert!(result.is_ok());
    assert_eq!(result.unwrap(), "8");
}

#[test]
fn test_calculator_operations() {
    let mut tools = Tools::new();
    tools.register(calculator());

    let result = tools.call("calculator", r#"{"operation": "add", "a": 10, "b": 5}"#);
    assert_eq!(result.unwrap(), "15");

    let result = tools.call("calculator", r#"{"operation": "subtract", "a": 10, "b": 3}"#);
    assert_eq!(result.unwrap(), "7");

    let result = tools.call("calculator", r#"{"operation": "multiply", "a": 4, "b": 3}"#);
    assert_eq!(result.unwrap(), "12");

    let result = tools.call("calculator", r#"{"operation": "divide", "a": 15, "b": 3}"#);
    assert_eq!(result.unwrap(), "5");
}

#[test]
fn test_calculator_division_by_zero() {
    let mut tools = Tools::new();
    tools.register(calculator());

    let result = tools.call("calculator", r#"{"operation": "divide", "a": 10, "b": 0}"#);
    assert!(result.is_err());
    assert!(result.unwrap_err().message().contains("Division by zero"));
}

#[test]
fn test_calculator_unknown_operation() {
    let mut tools = Tools::new();
    tools.register(calculator());

    let result = tools.call("calculator", r#"{"operation": "modulo", "a": 10, "b": 3}"#);
    assert!(result.is_err());
    assert!(result.unwrap_err().message().contains("Unknown operation"));
}

#[test]
fn test_multiple_tools() {
    let mut tools = Tools::new();
    tools.register(calculator());
    tools.register(TestTool::Greeter);

    let definitions = tools.definitions();
    assert_eq!(definitions.len(), 2);

    let calc_def = definitions.iter().find(|d| d.name == "calculator").unwrap();
    let greet_def = definitions.iter().find(|d| d.name == "greeter").unwrap();

    assert_eq!(
        calc_def.description,
        "Performs basic mathematical operations"
    );
    assert_eq!(greet_def.description, "Greets a person by name");

    let calc_result = tools.call("calculator", r#"{"operation": "add", "a": 2, "b": 3}"#);
    assert_eq!(calc_result.unwrap(), "5");

    let greet_result = tools.call("greeter", r#"{"name": "Alice"}"#);
    assert_eq!(greet_result.unwrap(), "Hello, Alice!");
}

#[test]
fn test_tool_not_found() {
    let mut tools: Tools<TestTool> = Tools::new();

    let result = tools.call("nonexistent", "{}");
    assert!(result.is_err());
    assert!(result
        .unwrap_err()
        .message()
        .contains("Tool 'nonexistent' not found"));
}

#[test]
fn test_invalid_json() {
    let mut tools = Tools::new();
    tools.register(calculator());

    let result = tools.call("calculator", "invalid json");
    assert!(result.is_err());
}

#[test]
fn test_tools_unregister() {
    let mut tools = Tools::new();
    tools.register(calculator());
    tools.register(TestTool::Greeter);

    assert_eq!(tools.definitions().len(), 2);

    tools.unregister("calculator");
    assert_eq!(tools.definitions().len(), 1);

    let remaining = &tools.definitions()[0];
    assert_eq!(remaining.name, "greeter");

    tools.unregister("greeter");
    assert_eq!(tools.definitions().len(), 0);
}

#[test]
fn test_tools_debug() {
    let mut tools = Tools::new();
    tools.register(calculator());
    tools.register(TestTool::Greeter);

    let debug_str = format!("{tools:?}");
    assert!(debug_str.contains("Tools"));
    assert!(debug_str.contains("calculator"));
    assert!(debug_str.contains("greeter"));
}

#[test]
fn test_tool_definition_debug() {
    let definition = calculator().definition();
    let debug_str = format!("{definition:?}");

    assert!(debug_str.contains("ToolDefinition"));
    assert!(debug_str.contains("calculator"));
    assert!(debug_str.contains("Performs basic mathematical operations"));
}

#[test]
fn test_tool_definition_clone() {
    let original = calculator().definition();
    let cloned = original.clone();

    assert_eq!(original.name, cloned.name);
    assert_eq!(original.description, cloned.description);
}

#[test]
fn test_register_same_name_replaces() {
    let mut tools = Tools::new();
    tools.register(calculator());
    tools.register(TestTool::Calculator {
        description: "Second calculator",
        calls: Rc::new(RefCell::new(0)),
    });

    let definitions = tools.definitions();
    assert_eq!(definitions.len(), 1);
    assert_eq!(definitions[0].name, "calculator");
    assert_eq!(definitions[0].description, "Second calculator");
}

#[test]
fn test_definitions_ordered_by_name() {
    let mut tools = Tools::new();
    tools.register(TestTool::Greeter);
    tools.register(calculator());

    let definitions = tools.definitions();
    let names: Vec<&str> = definitions.iter().map(|d| d.name.as_str()).collect();
    assert_eq!(names, vec!["calculator", "greeter"]);
}

#[test]
fn test_registry_rejects_malformed_argument_text() {
    let mut tools = Tools::new();
    tools.register(TestTool::Echo);

    // The tool itself accepts any text, so only the registry's own JSON
    // check can reject the call.
    let result = tools.call("echo", "not json");
    assert!(matches!(result, Err(CallError::ArgumentDecode { .. })));

    let result = tools.call("echo", r#"{"anything": true}"#);
    assert_eq!(result.unwrap(), r#"{"anything": true}"#);
}

#[test]
fn test_decode_failure_skips_tool_body() {
    let calls = Rc::new(RefCell::new(0));
    let mut tools = Tools::new();
    tools.register(TestTool::Calculator {
        description: "Performs basic mathematical operations",
        calls: Rc::clone(&calls),
    });

    let result = tools.call("calculator", "not json");
    assert!(matches!(
        result,
        Err(CallError::ArgumentDecode { .. })
    ));
    assert_eq!(*calls.borrow(), 0);

    let result = tools.call("calculator", r#"{"operation": "add", "a": 1, "b": 2}"#);
    assert_eq!(result.unwrap(), "3");
    assert_eq!(*calls.borrow(), 1);
}
