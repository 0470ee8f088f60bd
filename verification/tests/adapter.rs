use web_component::attributes::join_attributes;
use web_component::attributes::split_attributes;
use web_component::hello_world::merge_text;
use web_component::hello_world::value_or_default;
use web_component::hello_world::HelloWorld;
use web_component::model::Attribute;
use web_component::model::Definition;
use web_component::model::Element;
use web_component::model::Host;
use web_component::model::Listener;
use web_component::model::ListenerAction;
use web_component::model::Node;
use web_component::registrar::define_web_component;
use web_component::registrar::host_set_attribute;
use web_component::registrar::invoke_attribute_changed;
use web_component::registrar::invoke_connected;
use web_component::registrar::invoke_constructor;
use web_component::registrar::invoke_disconnected;
use web_component::registrar::normalize_value;
use web_component::helpers::fire_event;
use web_component::str_eq;
use web_component::get_attribute;
use web_component::set_child_inner_html;

fn empty_element() -> Element {
    Element { attributes: Vec::new(), content: Vec::new(), listeners: Vec::new() }
}

fn empty_host_with_one_element() -> Host {
    Host {
        elements: vec![empty_element()],
        current_element: None,
        registry: Vec::new(),
        console: Vec::new(),
        alerts: Vec::new(),
    }
}

fn hello_world_definition() -> Definition {
    Definition {
        tag_name: "hello-world".to_string(),
        observed_attributes: vec!["greeting".to_string(), "name".to_string()],
    }
}

fn button_html(host: &Host, element: usize) -> Option<String> {
    for node in host.elements[element].content.iter() {
        if let Node::Elem { tag, html } = node {
            if tag == "button" {
                return Some(html.clone());
            }
        }
    }
    None
}

#[test]
fn round_trip_basic() {
    let names: Vec<&'static str> = vec!["greeting", "name"];
    let joined = join_attributes(&names);
    assert_eq!(joined, "greeting:name");
    let split = split_attributes(joined.as_str());
    assert_eq!(split, vec!["greeting".to_string(), "name".to_string()]);
}

#[test]
fn round_trip_single_name() {
    let names: Vec<&'static str> = vec!["greeting"];
    let joined = join_attributes(&names);
    assert_eq!(joined, "greeting");
    let split = split_attributes(joined.as_str());
    assert_eq!(split, vec!["greeting".to_string()]);
}

#[test]
fn round_trip_breaks_on_delimiter_in_name() {
    // A name that contains the delimiter itself falls outside the
    // round-trip law: the receiving side sees two names.
    let names: Vec<&'static str> = vec!["a:b"];
    let joined = join_attributes(&names);
    assert_eq!(joined, "a:b");
    let split = split_attributes(joined.as_str());
    assert_eq!(split, vec!["a".to_string(), "b".to_string()]);
}

#[test]
fn round_trip_breaks_on_empty_list() {
    // The empty list also falls outside the law: its joined form is the
    // empty string, which splits into one empty name.
    let names: Vec<&'static str> = Vec::new();
    let joined = join_attributes(&names);
    assert_eq!(joined, "");
    let split = split_attributes(joined.as_str());
    assert_eq!(split, vec![String::new()]);
}

#[test]
fn split_keeps_empty_pieces() {
    let split = split_attributes("a::b");
    assert_eq!(split, vec!["a".to_string(), String::new(), "b".to_string()]);
}

#[test]
fn register_records_tag_and_observed_list() {
    let mut host = empty_host_with_one_element();
    define_web_component(&mut host, HelloWorld);
    assert_eq!(host.registry.len(), 1);
    assert_eq!(host.registry[0].tag_name, "hello-world");
    assert_eq!(
        host.registry[0].observed_attributes,
        vec!["greeting".to_string(), "name".to_string()]
    );
    assert!(host.current_element.is_none());
}

#[test]
fn constructor_writes_markup_and_listener() {
    let mut host = empty_host_with_one_element();
    invoke_constructor::<HelloWorld>(&mut host, 0);
    assert!(host.current_element.is_none());
    assert_eq!(host.elements[0].content.len(), 2);
    assert_eq!(button_html(&host, 0), Some("Hello World!".to_string()));
    assert_eq!(host.elements[0].listeners.len(), 1);
    let Listener { event_type, action } = &host.elements[0].listeners[0];
    assert_eq!(event_type, "click");
    match action {
        ListenerAction::ShowAlert { message } => assert_eq!(message, "Surprise!"),
        ListenerAction::LogMessage { .. } => panic!("expected an alert listener"),
    }
}

#[test]
fn connected_logs_and_clears_current() {
    let mut host = empty_host_with_one_element();
    invoke_connected::<HelloWorld>(&mut host, 0);
    assert!(host.current_element.is_none());
    assert_eq!(host.console, vec!["connected".to_string()]);
}

#[test]
fn disconnected_logs_and_clears_current() {
    let mut host = empty_host_with_one_element();
    invoke_disconnected::<HelloWorld>(&mut host, 0);
    assert!(host.current_element.is_none());
    assert_eq!(host.console, vec!["disconnected".to_string()]);
}

#[test]
fn greeting_then_name_yields_merged_text() {
    let mut host = empty_host_with_one_element();
    let def = hello_world_definition();
    invoke_constructor::<HelloWorld>(&mut host, 0);
    host_set_attribute::<HelloWorld>(&mut host, 0, &def, "greeting", "Hola");
    assert_eq!(button_html(&host, 0), Some("Hola World!".to_string()));
    host_set_attribute::<HelloWorld>(&mut host, 0, &def, "name", "Mundo");
    assert_eq!(button_html(&host, 0), Some("Hola Mundo!".to_string()));
    assert!(host.current_element.is_none());
}

#[test]
fn greeting_without_name_falls_back_to_world() {
    let mut host = empty_host_with_one_element();
    let def = hello_world_definition();
    invoke_constructor::<HelloWorld>(&mut host, 0);
    host_set_attribute::<HelloWorld>(&mut host, 0, &def, "greeting", "Hola");
    assert_eq!(button_html(&host, 0), Some("Hola World!".to_string()));
}

#[test]
fn name_without_greeting_falls_back_to_hello() {
    let mut host = empty_host_with_one_element();
    let def = hello_world_definition();
    invoke_constructor::<HelloWorld>(&mut host, 0);
    host_set_attribute::<HelloWorld>(&mut host, 0, &def, "name", "Mundo");
    assert_eq!(button_html(&host, 0), Some("Hello Mundo!".to_string()));
}

#[test]
fn unobserved_attribute_does_not_dispatch() {
    let mut host = empty_host_with_one_element();
    let def = hello_world_definition();
    invoke_constructor::<HelloWorld>(&mut host, 0);
    let content_before: Vec<String> = host.elements[0]
        .content
        .iter()
        .map(|n| match n {
            Node::Text { text } => text.clone(),
            Node::Elem { html, .. } => html.clone(),
        })
        .collect();
    host_set_attribute::<HelloWorld>(&mut host, 0, &def, "other", "x");
    let content_after: Vec<String> = host.elements[0]
        .content
        .iter()
        .map(|n| match n {
            Node::Text { text } => text.clone(),
            Node::Elem { html, .. } => html.clone(),
        })
        .collect();
    // the attribute is stored, but no handler ran: the markup is untouched
    assert_eq!(content_before, content_after);
    assert_eq!(host.elements[0].attributes.len(), 1);
    assert_eq!(host.elements[0].attributes[0].name, "other");
    assert_eq!(host.elements[0].attributes[0].value, "x");
    assert!(host.current_element.is_none());
}

#[test]
fn selector_miss_leaves_markup_unchanged() {
    let mut host = Host {
        elements: vec![Element {
            attributes: Vec::new(),
            content: vec![Node::Text { text: "plain".to_string() }],
            listeners: Vec::new(),
        }],
        current_element: Some(0),
        registry: Vec::new(),
        console: Vec::new(),
        alerts: Vec::new(),
    };
    set_child_inner_html(&mut host, "button", "new text");
    assert_eq!(host.elements[0].content.len(), 1);
    match &host.elements[0].content[0] {
        Node::Text { text } => assert_eq!(text, "plain"),
        Node::Elem { .. } => panic!("the text node must survive unchanged"),
    }
}

#[test]
fn get_attribute_reads_value_or_empty() {
    let host = Host {
        elements: vec![Element {
            attributes: vec![Attribute {
                name: "greeting".to_string(),
                value: "Hola".to_string(),
            }],
            content: Vec::new(),
            listeners: Vec::new(),
        }],
        current_element: Some(0),
        registry: Vec::new(),
        console: Vec::new(),
        alerts: Vec::new(),
    };
    assert_eq!(get_attribute(&host, "greeting"), "Hola");
    assert_eq!(get_attribute(&host, "name"), "");
}

#[test]
fn absent_values_are_normalized_to_empty_strings() {
    assert_eq!(normalize_value(Some("x".to_string())), "x");
    assert_eq!(normalize_value(None), "");
    // dispatched with both values absent, the handler sees empty strings
    let mut host = empty_host_with_one_element();
    invoke_constructor::<HelloWorld>(&mut host, 0);
    invoke_attribute_changed::<HelloWorld>(&mut host, 0, "greeting", None, None);
    assert_eq!(button_html(&host, 0), Some(" World!".to_string()));
}

#[test]
fn click_listener_raises_the_alert() {
    let mut host = empty_host_with_one_element();
    invoke_constructor::<HelloWorld>(&mut host, 0);
    assert!(host.alerts.is_empty());
    fire_event(&mut host, 0, "click");
    assert_eq!(host.alerts, vec!["Surprise!".to_string()]);
    // the listener ran outside any dispatch bracket
    assert!(host.current_element.is_none());
    assert!(host.console.is_empty());
}

#[test]
fn other_events_fire_nothing() {
    let mut host = empty_host_with_one_element();
    invoke_constructor::<HelloWorld>(&mut host, 0);
    fire_event(&mut host, 0, "hover");
    assert!(host.alerts.is_empty());
    assert!(host.console.is_empty());
}

#[test]
fn merge_text_exact_value() {
    assert_eq!(merge_text("Hola", "Mundo"), "Hola Mundo!");
    assert_eq!(merge_text("", ""), " !");
}

#[test]
fn value_or_default_falls_back_on_empty() {
    assert_eq!(value_or_default(String::new(), "World"), "World");
    assert_eq!(value_or_default("Mundo".to_string(), "World"), "Mundo");
}

#[test]
fn str_eq_compares_contents() {
    assert!(str_eq("abc", "abc"));
    assert!(!str_eq("abc", "abd"));
    assert!(!str_eq("", "a"));
}
