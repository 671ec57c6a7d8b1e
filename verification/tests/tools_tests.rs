use std::cell::Cell;

use hyperlight_sandbox::tools::{unknown_tool_message, DispatchError, ToolRegistry};

type Handler = Box<dyn Fn(i32) -> Result<i32, String>>;
type Hook = Box<dyn Fn(&str, &i32) -> Result<(), String>>;

#[test]
fn dispatch_reaches_the_last_registered_handler() {
    let mut reg: ToolRegistry<Handler, Hook> = ToolRegistry::new();
    reg.register("double", Box::new(|x| Ok(x * 2)));
    reg.register("double", Box::new(|x| Ok(x * 20)));
    reg.register("fail", Box::new(|_| Err("broken".to_string())));
    assert!(matches!(reg.dispatch("double", 3), Ok(60)));
    assert!(matches!(reg.dispatch("fail", 3), Err(DispatchError::Handler(e)) if e == "broken"));
}

#[test]
fn unknown_tools_are_reported_by_name() {
    let reg: ToolRegistry<Handler, Hook> = ToolRegistry::default();
    match reg.dispatch::<i32, i32, String>("foo", 1) {
        Err(DispatchError::UnknownTool(n)) => {
            assert_eq!(n, "foo");
            assert_eq!(unknown_tool_message(&n), "unknown tool: foo");
        }
        _ => panic!("expected an unknown tool"),
    }
}

#[test]
fn hooks_run_in_order_and_the_first_refusal_stops_the_call() {
    let calls = Cell::new(0);
    let mut reg: ToolRegistry<Box<dyn Fn(i32) -> Result<i32, String> + '_>, Box<dyn Fn(&str, &i32) -> Result<(), String> + '_>> =
        ToolRegistry::new();
    reg.register("id", Box::new(|x| Ok(x)));
    reg.add_middleware(Box::new(|_, _| {
        calls.set(calls.get() + 1);
        Ok(())
    }));
    reg.add_middleware(Box::new(|name, x| if *x < 0 { Err(format!("{name} refused")) } else { Ok(()) }));
    reg.add_middleware(Box::new(|_, _| {
        calls.set(calls.get() + 100);
        Ok(())
    }));
    assert!(matches!(reg.dispatch("id", 5), Ok(5)));
    assert_eq!(calls.get(), 101);
    assert!(matches!(reg.dispatch("id", -1), Err(DispatchError::Hook(e)) if e == "id refused"));
    assert_eq!(calls.get(), 102);
    // hooks run even for an unknown tool, and may refuse it
    assert!(matches!(reg.dispatch("nope", -1), Err(DispatchError::Hook(_))));
    assert!(matches!(reg.dispatch("nope", 1), Err(DispatchError::UnknownTool(_))));
}
