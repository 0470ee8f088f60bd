//! The demo component: a greeting button. Its constructor writes a style
//! block and a button, and wires a click listener; the attribute handler
//! merges the `greeting` and `name` attributes into the button text.

use vstd::prelude::*;

use crate::helpers::add_event_listener;
use crate::helpers::get_attribute;
use crate::helpers::log;
use crate::helpers::set_child_inner_html;
use crate::helpers::set_inner_html;
use crate::model::attr_value;
use crate::model::names_view;
use crate::model::nodes_view;
use crate::model::set_child;
use crate::model::str_eq;
use crate::model::Host;
use crate::model::HostView;
use crate::model::ListenerAction;
use crate::model::ListenerActionView;
use crate::model::ListenerView;
use crate::model::Node;
use crate::model::NodeView;
use crate::registrar::WebComponent;

verus! {

/// A custom element that greets: `greeting` and `name` attributes are
/// merged into the text of its button.
pub struct HelloWorld;

/// The value of an optional attribute, falling back when it is absent or
/// empty.
pub open spec fn spec_or_default(value: Seq<char>, fallback: Seq<char>) -> Seq<char> {
    if value.len() == 0 {
        fallback
    } else {
        value
    }
}

/// The button text: the greeting, a space, the name, and an exclamation
/// mark.
pub open spec fn spec_button_text(greeting: Seq<char>, name: Seq<char>) -> Seq<char> {
    greeting + " "@ + name + "!"@
}

/// The markup the constructor writes: a style block and the button.
pub open spec fn initial_content_view() -> Seq<NodeView> {
    seq![
        NodeView::Elem {
            tag: "style"@,
            html: "hello-world button { border: solid 1px black; border-radius: 5px; padding: 5px; font-family: arial; }"@,
        },
        NodeView::Elem { tag: "button"@, html: "Hello World!"@ },
    ]
}

/// The click listener the constructor registers.
pub open spec fn click_listener_view() -> ListenerView {
    ListenerView {
        event_type: "click"@,
        action: ListenerActionView::ShowAlert { message: "Surprise!"@ },
    }
}

/// Construction's effect on the host: the current element's markup
/// subtree becomes the style block and the button, and the click listener
/// is registered on it.
pub open spec fn construct_effect(pre: HostView, post: HostView) -> bool {
    let i = pre.current_element.unwrap();
    let before = pre.elements[i];
    let styled = before.with_content(initial_content_view());
    let wired = styled.with_listeners(styled.listeners.push(click_listener_view()));
    post == pre.with_elements(pre.elements.update(i, wired))
}

/// An attribute change's effect on the host: for an observed name the
/// button's inner markup becomes the merged greeting and name, the
/// greeting falling back to a plain `Hello` and the name to `World`; any
/// other name leaves the element untouched.
pub open spec fn attribute_change_effect(
    pre: HostView,
    post: HostView,
    attribute_name: Seq<char>,
    new_value: Seq<char>,
) -> bool {
    let i = pre.current_element.unwrap();
    let before = pre.elements[i];
    let content = if attribute_name == "greeting"@ {
        set_child(
            before.content,
            "button"@,
            spec_button_text(
                new_value,
                spec_or_default(attr_value(before.attributes, "name"@), "World"@),
            ),
        )
    } else if attribute_name == "name"@ {
        set_child(
            before.content,
            "button"@,
            spec_button_text(
                spec_or_default(attr_value(before.attributes, "greeting"@), "Hello"@),
                new_value,
            ),
        )
    } else {
        before.content
    };
    post == pre.with_elements(pre.elements.update(i, before.with_content(content)))
}

/// The given value when it is non-empty, the fallback otherwise.
pub fn value_or_default(value: String, fallback: &'static str) -> (r: String)
    ensures
        r@ == spec_or_default(value@, fallback@),
{
    if value.as_str().is_empty() {
        fallback.to_owned()
    } else {
        value
    }
}

/// Merges a greeting and a name into the button text.
pub fn merge_text(greeting: &str, name: &str) -> (r: String)
    ensures
        r@ == spec_button_text(greeting@, name@),
{
    let mut r = greeting.to_owned();
    r.append(" ");
    r.append(name);
    r.append("!");
    r
}

impl HelloWorld {
    /// The constructor's markup subtree.
    fn initial_content() -> (r: Vec<Node>)
        ensures
            nodes_view(r@) == initial_content_view(),
    {
        let mut r: Vec<Node> = Vec::new();
        r.push(
            Node::Elem {
                tag: "style".to_owned(),
                html: "hello-world button { border: solid 1px black; border-radius: 5px; padding: 5px; font-family: arial; }".to_owned(),
            },
        );
        r.push(Node::Elem { tag: "button".to_owned(), html: "Hello World!".to_owned() });
        proof {
            assert(nodes_view(r@) =~= initial_content_view());
        }
        r
    }

    /// What construction does to the current element: its markup subtree
    /// becomes the style block and the button, and the click listener is
    /// registered on it.
    pub fn construct(host: &mut Host)
        requires
            old(host)@.inv(),
            old(host)@.current_element is Some,
        ensures
            construct_effect(old(host)@, final(host)@),
    {
        let ghost h0 = host@;
        let ghost i = host@.current_element.unwrap();
        set_inner_html(host, Self::initial_content());
        add_event_listener(
            host,
            "click",
            ListenerAction::ShowAlert { message: "Surprise!".to_owned() },
        );
        proof {
            let before = h0.elements[i];
            let styled = before.with_content(initial_content_view());
            let wired = styled.with_listeners(styled.listeners.push(click_listener_view()));
            assert(host@ =~~= h0.with_elements(h0.elements.update(i, wired)));
        }
    }

    /// What an observed attribute change does to the current element: the
    /// button's inner markup becomes the merged greeting and name, where
    /// the greeting falls back to a plain `Hello` and the name to `World`.
    /// A change of any other attribute leaves the element untouched.
    pub fn apply_attribute_change(host: &mut Host, attribute_name: &str, new_value: &str)
        requires
            old(host)@.inv(),
            old(host)@.current_element is Some,
        ensures
            attribute_change_effect(old(host)@, final(host)@, attribute_name@, new_value@),
    {
        let ghost h0 = host@;
        let ghost i = host@.current_element.unwrap();
        if str_eq(attribute_name, "greeting") {
            let name_attr = get_attribute(host, "name");
            let name_val = value_or_default(name_attr, "World");
            let text = merge_text(new_value, name_val.as_str());
            set_child_inner_html(host, "button", text.as_str());
        } else if str_eq(attribute_name, "name") {
            let greeting_attr = get_attribute(host, "greeting");
            let greeting_val = value_or_default(greeting_attr, "Hello");
            let text = merge_text(greeting_val.as_str(), new_value);
            set_child_inner_html(host, "button", text.as_str());
        } else {
            proof {
                let before = h0.elements[i];
                assert(before.with_content(before.content) =~= before);
                assert(h0.elements.update(i, before) =~= h0.elements);
                assert(host@ =~~= h0.with_elements(
                    h0.elements.update(i, before.with_content(before.content)),
                ));
            }
        }
    }
}

impl WebComponent for HelloWorld {
    open spec fn spec_element_name() -> Seq<char> {
        "hello-world"@
    }

    open spec fn spec_observable_attributes() -> Seq<Seq<char>> {
        seq!["greeting"@, "name"@]
    }

    open spec fn constructor_post(pre: HostView, post: HostView) -> bool {
        pre.current_element is Some ==> construct_effect(pre, post)
    }

    open spec fn connected_post(pre: HostView, post: HostView) -> bool {
        post == pre.with_console(pre.console.push("connected"@))
    }

    open spec fn disconnected_post(pre: HostView, post: HostView) -> bool {
        post == pre.with_console(pre.console.push("disconnected"@))
    }

    open spec fn attribute_changed_post(
        pre: HostView,
        post: HostView,
        attribute_name: Seq<char>,
        old_value: Seq<char>,
        new_value: Seq<char>,
    ) -> bool {
        pre.current_element is Some ==> attribute_change_effect(
            pre,
            post,
            attribute_name,
            new_value,
        )
    }

    fn get_element_name() -> (r: &'static str) {
        "hello-world"
    }

    fn get_observable_attributes() -> (r: Vec<&'static str>) {
        let mut v: Vec<&'static str> = Vec::new();
        v.push("greeting");
        v.push("name");
        proof {
            assert(names_view(v@) =~= seq!["greeting"@, "name"@]);
        }
        v
    }

    fn constructor(host: &mut Host) {
        Self::construct(host);
    }

    fn connected(host: &mut Host) {
        log(host, "connected");
    }

    fn disconnected(host: &mut Host) {
        log(host, "disconnected");
    }

    fn attribute_changed(
        host: &mut Host,
        attribute_name: String,
        _old_value: String,
        new_value: String,
    ) {
        Self::apply_attribute_change(host, attribute_name.as_str(), new_value.as_str());
    }
}

} // verus!
