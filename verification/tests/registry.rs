use agent_kit::tools::{Tool, ToolError, ToolRegistry};
use agent_kit::wire::ToolSpec;

struct Named {
    name: Option<&'static str>,
    reply: &'static str,
}

impl Tool for Named {
    fn declared_spec(&self) -> ToolSpec {
        self.spec()
    }

    fn spec(&self) -> ToolSpec {
        ToolSpec { name: self.name.map(|n| n.to_string()), description: None, parameters_json: None }
    }

    fn call(&self, arguments_json: &str) -> Result<String, ToolError> {
        if arguments_json == "fail" {
            return Err(ToolError::failed(self.name.unwrap_or(""), "bad input".to_string()));
        }
        Ok(format!("{}:{arguments_json}", self.reply))
    }
}

#[test]
fn unknown_tool_is_reported() {
    let reg: ToolRegistry<Named> = ToolRegistry::new();
    assert_eq!(reg.call("nope", "{}"), Err(ToolError::Unknown("nope".to_string())));
    assert_eq!(ToolError::Unknown("nope".into()).to_string(), "unknown tool: nope");
    assert!(reg.specs().is_empty());
    let d: ToolRegistry<Named> = ToolRegistry::default();
    assert!(d.specs().is_empty());
}

#[test]
fn registering_again_replaces() {
    let mut reg = ToolRegistry::new();
    reg.register(Named { name: Some("a"), reply: "first" });
    reg.register(Named { name: Some("b"), reply: "other" });
    reg.register(Named { name: Some("a"), reply: "second" });
    assert_eq!(reg.specs().len(), 2);
    assert_eq!(reg.call("a", "x"), Ok("second:x".to_string()));
    assert_eq!(reg.call("b", "y"), Ok("other:y".to_string()));
    let err = reg.call("a", "fail").unwrap_err();
    assert_eq!(err.to_string(), "tool `a` failed: bad input");
}

#[test]
fn nameless_tool_is_registered_under_empty_name() {
    let mut reg = ToolRegistry::new();
    reg.register(Named { name: None, reply: "anon" });
    assert_eq!(reg.call("", "z"), Ok("anon:z".to_string()));
}
