use pact::scaffold::html_emitter::emit;
use pact::scaffold::route_analysis::{RouteTable, StoreInfo};

fn test_table() -> RouteTable {
    RouteTable {
        module_name: "user_service".to_string(),
        store_types: vec![StoreInfo {
            ty_name: "User".to_string(),
            plural: "users".to_string(),
            singular: "user".to_string(),
            needs_mut: true,
        }],
        routes: vec![],
    }
}

#[test]
fn test_html_emitter_contains_page_function() {
    let output = emit(&test_table());
    assert!(output.contains("pub fn html_page("));
    assert!(output.contains("pub fn html_nav("));
    assert!(output.contains("pub fn html_table("));
    assert!(output.contains("pub fn html_form("));
    assert!(output.contains("pub fn html_alert("));
}

#[test]
fn test_html_emitter_uses_app_title() {
    let output = emit(&test_table());
    assert!(output.contains("User Service"));
}

#[test]
fn test_html_emitter_has_nav_links() {
    let output = emit(&test_table());
    assert!(output.contains("Users"));
    assert!(output.contains("New User"));
}
