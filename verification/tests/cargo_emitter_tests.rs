use pact::scaffold::cargo_emitter::emit;
use pact::scaffold::route_analysis::{RouteTable, StoreInfo};

fn test_table() -> RouteTable {
    RouteTable {
        module_name: "user_service".to_string(),
        store_types: vec![StoreInfo {
            ty_name: "User".to_string(),
            plural: "users".to_string(),
            singular: "user".to_string(),
            needs_mut: true,
        }],
        routes: vec![],
    }
}

#[test]
fn test_cargo_emitter_package_name() {
    let output = emit(&test_table());
    assert!(output.contains("name = \"user-service-web\""));
}

#[test]
fn test_cargo_emitter_dependencies() {
    let output = emit(&test_table());
    assert!(output.contains("pact-runtime"));
    assert!(output.contains("axum"));
    assert!(output.contains("tokio"));
    assert!(output.contains("serde"));
    assert!(output.contains("serde_json"));
    assert!(output.contains("uuid"));
}
