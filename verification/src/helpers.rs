//! Helper operations exposed to lifecycle handlers. Each one resolves "the
//! element currently handling a callback" through the host's shared slot,
//! which the dispatch shim sets around every invocation.

use vstd::prelude::*;

use crate::model::alert_of;
use crate::model::attr_value;
use crate::model::attrs_view;
use crate::model::fired_alerts;
use crate::model::fired_logs;
use crate::model::has_attr;
use crate::model::lemma_fired_push;
use crate::model::log_of;
use crate::model::lemma_set_child_first_match;
use crate::model::lemma_set_child_no_match;
use crate::model::node_matches;
use crate::model::nodes_view;
use crate::model::set_child;
use crate::model::str_eq;
use crate::model::Attribute;
use crate::model::Host;
use crate::model::Listener;
use crate::model::ListenerAction;
use crate::model::ListenerActionView;
use crate::model::ListenerView;
use crate::model::Node;
use crate::model::NodeView;

verus! {

/// The index of the element the shared slot points at.
fn current_index(host: &Host) -> (i: usize)
    requires
        host@.inv(),
        host@.current_element is Some,
    ensures
        host@.current_element == Some(i as int),
        i < host@.elements.len(),
{
    host.current_element.unwrap()
}

/// An element without the named attribute reads as the empty string.
pub(crate) proof fn lemma_attr_value_absent(attrs: Seq<crate::model::AttributeView>, name: Seq<char>)
    requires
        !has_attr(attrs, name),
    ensures
        attr_value(attrs, name) == Seq::<char>::empty(),
    decreases attrs.len(),
{
    if attrs.len() > 0 {
        lemma_attr_value_absent(attrs.skip(1), name);
    }
}

/// The first attribute of the given name, if the element has one.
pub(crate) fn attrs_lookup(attrs: &Vec<Attribute>, name: &str) -> (r: Option<String>)
    ensures
        r is Some <==> has_attr(attrs_view(attrs@), name@),
        r is Some ==> r.unwrap()@ == attr_value(attrs_view(attrs@), name@),
{
    let av = Ghost(attrs_view(attrs@));
    let mut j: usize = 0;
    proof {
        assert(av@.skip(0) =~= av@);
    }
    while j < attrs.len()
        invariant
            0 <= j <= attrs@.len(),
            av@ == attrs_view(attrs@),
            av@.len() == attrs@.len(),
            attr_value(av@, name@) == attr_value(av@.skip(j as int), name@),
            has_attr(av@, name@) == has_attr(av@.skip(j as int), name@),
        decreases attrs@.len() - j,
    {
        if str_eq(attrs[j].name.as_str(), name) {
            proof {
                assert(av@.skip(j as int)[0] == av@[j as int]);
            }
            return Some(attrs[j].value.clone());
        }
        proof {
            assert(av@.skip(j as int)[0] == av@[j as int]);
            assert(av@.skip(j as int).skip(1) =~= av@.skip(j as int + 1));
        }
        j += 1;
    }
    proof {
        assert(av@.skip(attrs@.len() as int).len() == 0);
    }
    None
}

/// Reads an attribute of the current element: its value, or the empty
/// string when the element has no attribute of that name.
pub fn get_attribute(host: &Host, attr_name: &str) -> (r: String)
    requires
        host@.inv(),
        host@.current_element is Some,
    ensures
        r@ == attr_value(
            host@.elements[host@.current_element.unwrap()].attributes,
            attr_name@,
        ),
{
    let i = current_index(host);
    let found = attrs_lookup(&host.elements[i].attributes, attr_name);
    match found {
        Some(v) => v,
        None => {
            proof {
                lemma_attr_value_absent(
                    attrs_view(host.elements@[i as int].attributes@),
                    attr_name@,
                );
            }
            String::new()
        },
    }
}

/// Appends a message to the host console.
pub fn log(host: &mut Host, msg: &str)
    ensures
        final(host)@ == old(host)@.with_console(old(host)@.console.push(msg@)),
{
    host.console.push(msg.to_owned());
    proof {
        assert(host@.console =~= old(host)@.console.push(msg@));
        assert(host@ =~= old(host)@.with_console(old(host)@.console.push(msg@)));
    }
}

/// Shows a dialog: appends a message to the host's alert sink.
pub fn alert(host: &mut Host, msg: &str)
    ensures
        final(host)@ == old(host)@.with_alerts(old(host)@.alerts.push(msg@)),
{
    host.alerts.push(msg.to_owned());
    proof {
        assert(host@.alerts =~= old(host)@.alerts.push(msg@));
        assert(host@ =~= old(host)@.with_alerts(old(host)@.alerts.push(msg@)));
    }
}

/// Replaces the entire markup subtree of the current element. The markup
/// is handed over in the library's own structured form; no part of the
/// old subtree survives.
pub fn set_inner_html(host: &mut Host, html: Vec<Node>)
    requires
        old(host)@.inv(),
        old(host)@.current_element is Some,
    ensures
        ({
            let i = old(host)@.current_element.unwrap();
            final(host)@ == old(host)@.with_elements(
                old(host)@.elements.update(
                    i,
                    old(host)@.elements[i].with_content(nodes_view(html@)),
                ),
            )
        }),
{
    let i = current_index(host);
    let ghost h0 = host@;
    host.elements[i].content = html;
    proof {
        assert(host@.elements =~= h0.elements.update(
            i as int,
            h0.elements[i as int].with_content(nodes_view(host.elements@[i as int].content@)),
        ));
        assert(host@ =~= h0.with_elements(
            h0.elements.update(
                i as int,
                h0.elements[i as int].with_content(nodes_view(host.elements@[i as int].content@)),
            ),
        ));
    }
}

/// The index of the first descendant of the subtree that the selector
/// matches, if any.
fn find_child(content: &Vec<Node>, target: &str) -> (r: Option<usize>)
    ensures
        match r {
            Some(j) => {
                &&& (j as int) < content@.len()
                &&& node_matches(nodes_view(content@)[j as int], target@)
                &&& forall|t: int| 0 <= t < j ==> !node_matches(nodes_view(content@)[t], target@)
            },
            None => forall|t: int|
                0 <= t < content@.len() ==> !node_matches(nodes_view(content@)[t], target@),
        },
{
    let mut j: usize = 0;
    while j < content.len()
        invariant
            0 <= j <= content@.len(),
            forall|t: int| 0 <= t < j ==> !node_matches(nodes_view(content@)[t], target@),
        decreases content@.len() - j,
    {
        let matched = match &content[j] {
            Node::Elem { tag, html: _ } => str_eq(tag.as_str(), target),
            Node::Text { text: _ } => false,
        };
        proof {
            assert(nodes_view(content@)[j as int] == content@[j as int]@);
        }
        if matched {
            return Some(j);
        }
        j += 1;
    }
    None
}

/// Replaces the inner markup of the first descendant of the current
/// element that the selector matches. When the selector matches nothing,
/// the markup subtree stays exactly as it was and nothing is raised.
pub fn set_child_inner_html(host: &mut Host, target: &str, html: &str)
    requires
        old(host)@.inv(),
        old(host)@.current_element is Some,
    ensures
        ({
            let i = old(host)@.current_element.unwrap();
            final(host)@ == old(host)@.with_elements(
                old(host)@.elements.update(
                    i,
                    old(host)@.elements[i].with_content(
                        set_child(old(host)@.elements[i].content, target@, html@),
                    ),
                ),
            )
        }),
{
    let i = current_index(host);
    let ghost h0 = host@;
    let ghost cv = host@.elements[i as int].content;
    let found = find_child(&host.elements[i].content, target);
    match found {
        Some(j) => {
            let tag_copy = match &host.elements[i].content[j] {
                Node::Elem { tag, html: _ } => tag.clone(),
                Node::Text { text: _ } => {
                    proof {
                        assert(nodes_view(host.elements@[i as int].content@)[j as int]
                            == host.elements@[i as int].content@[j as int]@);
                    }
                    unreached()
                },
            };
            host.elements[i].content[j] = Node::Elem { tag: tag_copy, html: html.to_owned() };
            proof {
                lemma_set_child_first_match(cv, target@, html@, j as int);
                assert(host@.elements =~~= h0.elements.update(
                    i as int,
                    h0.elements[i as int].with_content(
                        set_child(h0.elements[i as int].content, target@, html@),
                    ),
                ));
                assert(host@ =~~= h0.with_elements(
                    h0.elements.update(
                        i as int,
                        h0.elements[i as int].with_content(
                            set_child(h0.elements[i as int].content, target@, html@),
                        ),
                    ),
                ));
            }
        },
        None => {
            proof {
                lemma_set_child_no_match(cv, target@, html@);
                assert(host@ =~~= h0.with_elements(
                    h0.elements.update(
                        i as int,
                        h0.elements[i as int].with_content(
                            set_child(h0.elements[i as int].content, target@, html@),
                        ),
                    ),
                ));
            }
        },
    }
}

/// Registers a listener on the current element for the given event type.
/// The action is bound at registration time: when the event later fires,
/// the dispatch bracket is long closed, so a listener must not resolve its
/// element through the shared slot.
pub fn add_event_listener(host: &mut Host, event_type: &str, action: ListenerAction)
    requires
        old(host)@.inv(),
        old(host)@.current_element is Some,
    ensures
        ({
            let i = old(host)@.current_element.unwrap();
            final(host)@ == old(host)@.with_elements(
                old(host)@.elements.update(
                    i,
                    old(host)@.elements[i].with_listeners(
                        old(host)@.elements[i].listeners.push(
                            ListenerView { event_type: event_type@, action: action@ },
                        ),
                    ),
                ),
            )
        }),
{
    let ghost lv = ListenerView { event_type: event_type@, action: action@ };
    let i = current_index(host);
    let ghost h0 = host@;
    host.elements[i].listeners.push(Listener { event_type: event_type.to_owned(), action });
    proof {
        assert(host@.elements =~~= h0.elements.update(
            i as int,
            h0.elements[i as int].with_listeners(h0.elements[i as int].listeners.push(lv)),
        ));
        assert(host@ =~~= h0.with_elements(
            h0.elements.update(
                i as int,
                h0.elements[i as int].with_listeners(h0.elements[i as int].listeners.push(lv)),
            ),
        ));
    }
}

/// The host's side of an event: every listener registered on the element
/// for this event type runs, in registration order. The dispatch bracket
/// is long closed by the time an event fires, so firing neither consults
/// nor sets the shared slot: each listener's effect was bound to its
/// element at registration time.
pub fn fire_event(host: &mut Host, element: usize, event_type: &str)
    requires
        old(host)@.inv(),
        (element as int) < old(host)@.elements.len(),
    ensures
        ({
            let listeners = old(host)@.elements[element as int].listeners;
            final(host)@ == old(host)@.with_console(
                old(host)@.console + fired_logs(listeners, event_type@),
            ).with_alerts(old(host)@.alerts + fired_alerts(listeners, event_type@))
        }),
{
    let ghost h0 = host@;
    let ghost lv = host@.elements[element as int].listeners;
    let n = host.elements[element].listeners.len();
    let mut j: usize = 0;
    proof {
        assert(lv.take(0) =~= Seq::<ListenerView>::empty());
        assert(h0.console + fired_logs(lv.take(0), event_type@) =~= h0.console);
        assert(h0.alerts + fired_alerts(lv.take(0), event_type@) =~= h0.alerts);
    }
    while j < n
        invariant
            0 <= j <= n,
            n == lv.len(),
            (element as int) < host@.elements.len(),
            host@.elements == h0.elements,
            host@.elements[element as int].listeners == lv,
            host@.current_element == h0.current_element,
            host@.registry == h0.registry,
            host@.console == h0.console + fired_logs(lv.take(j as int), event_type@),
            host@.alerts == h0.alerts + fired_alerts(lv.take(j as int), event_type@),
        decreases n - j,
    {
        proof {
            assert(lv[j as int] == host.elements@[element as int].listeners@[j as int]@);
            assert(lv.take(j as int).push(lv[j as int]) =~= lv.take(j as int + 1));
            lemma_fired_push(lv.take(j as int), lv[j as int], event_type@);
        }
        let matches_event = str_eq(
            host.elements[element].listeners[j].event_type.as_str(),
            event_type,
        );
        if matches_event {
            let action_copy: ListenerAction = match &host.elements[element].listeners[j].action {
                ListenerAction::ShowAlert { message } => ListenerAction::ShowAlert {
                    message: message.clone(),
                },
                ListenerAction::LogMessage { message } => ListenerAction::LogMessage {
                    message: message.clone(),
                },
            };
            proof {
                assert(action_copy@ == lv[j as int].action);
            }
            match action_copy {
                ListenerAction::ShowAlert { message } => {
                    let ghost mv = message@;
                    let ghost alerts0 = host@.alerts;
                    host.alerts.push(message);
                    proof {
                        assert(lv[j as int].event_type == event_type@);
                        assert(lv[j as int].action == (ListenerActionView::ShowAlert {
                            message: mv,
                        }));
                        assert(alert_of(lv[j as int], event_type@) == seq![mv]);
                        assert(host@.alerts =~= alerts0.push(mv));
                        assert(fired_alerts(lv.take(j as int + 1), event_type@) == fired_alerts(
                            lv.take(j as int),
                            event_type@,
                        ) + seq![mv]);
                        assert(host@.alerts =~= h0.alerts + fired_alerts(
                            lv.take(j as int + 1),
                            event_type@,
                        ));
                        assert(host@.console =~= h0.console + fired_logs(
                            lv.take(j as int + 1),
                            event_type@,
                        ));
                    }
                },
                ListenerAction::LogMessage { message } => {
                    let ghost mv = message@;
                    let ghost console0 = host@.console;
                    host.console.push(message);
                    proof {
                        assert(lv[j as int].event_type == event_type@);
                        assert(lv[j as int].action == (ListenerActionView::LogMessage {
                            message: mv,
                        }));
                        assert(log_of(lv[j as int], event_type@) == seq![mv]);
                        assert(host@.console =~= console0.push(mv));
                        assert(fired_logs(lv.take(j as int + 1), event_type@) == fired_logs(
                            lv.take(j as int),
                            event_type@,
                        ) + seq![mv]);
                        assert(host@.alerts =~= h0.alerts + fired_alerts(
                            lv.take(j as int + 1),
                            event_type@,
                        ));
                        assert(host@.console =~= h0.console + fired_logs(
                            lv.take(j as int + 1),
                            event_type@,
                        ));
                    }
                },
            }
        } else {
            proof {
                assert(host@.alerts =~= h0.alerts + fired_alerts(
                    lv.take(j as int + 1),
                    event_type@,
                ));
                assert(host@.console =~= h0.console + fired_logs(
                    lv.take(j as int + 1),
                    event_type@,
                ));
            }
        }
        j += 1;
    }
    proof {
        assert(lv.take(n as int) =~= lv);
        assert(host@ =~~= h0.with_console(h0.console + fired_logs(lv, event_type@)).with_alerts(
            h0.alerts + fired_alerts(lv, event_type@),
        ));
    }
}

} // verus!
