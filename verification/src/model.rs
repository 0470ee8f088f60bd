//! Data model of the host environment: elements, their attributes, markup
//! and listeners, the component registry, and the shared "current element"
//! slot that the dispatch shim sets around every lifecycle callback.

use vstd::prelude::*;

verus! {

/// One attribute on an element: a name and its current value.
pub struct Attribute {
    pub name: String,
    pub value: String,
}

/// One node of an element's markup subtree. A `Text` node is literal markup;
/// an `Elem` node is a descendant element addressable by its tag name, with
/// its own inner markup.
pub enum Node {
    Text { text: String },
    Elem { tag: String, html: String },
}

/// What a registered event listener does when its event fires. Listeners run
/// outside the dispatch bracket, so their effect is described as data bound
/// at registration time rather than as a closure over the shared slot.
pub enum ListenerAction {
    ShowAlert { message: String },
    LogMessage { message: String },
}

/// A listener registered on an element for one event type.
pub struct Listener {
    pub event_type: String,
    pub action: ListenerAction,
}

/// One element of the document.
pub struct Element {
    pub attributes: Vec<Attribute>,
    pub content: Vec<Node>,
    pub listeners: Vec<Listener>,
}

/// One entry of the component registry: a tag name together with the
/// observed-attribute list the host received for it.
pub struct Definition {
    pub tag_name: String,
    pub observed_attributes: Vec<String>,
}

/// The host environment as the adapter sees it: the document's elements,
/// the single shared "current element" slot, the component registry, and
/// the console/dialog sinks.
pub struct Host {
    pub elements: Vec<Element>,
    pub current_element: Option<usize>,
    pub registry: Vec<Definition>,
    pub console: Vec<String>,
    pub alerts: Vec<String>,
}

// ---------------------------------------------------------------------------
// Mathematical views
// ---------------------------------------------------------------------------

pub ghost struct AttributeView {
    pub name: Seq<char>,
    pub value: Seq<char>,
}

pub ghost enum NodeView {
    Text { text: Seq<char> },
    Elem { tag: Seq<char>, html: Seq<char> },
}

pub ghost enum ListenerActionView {
    ShowAlert { message: Seq<char> },
    LogMessage { message: Seq<char> },
}

pub ghost struct ListenerView {
    pub event_type: Seq<char>,
    pub action: ListenerActionView,
}

#[verifier::ext_equal]
pub ghost struct ElementView {
    pub attributes: Seq<AttributeView>,
    pub content: Seq<NodeView>,
    pub listeners: Seq<ListenerView>,
}

#[verifier::ext_equal]
pub ghost struct DefinitionView {
    pub tag_name: Seq<char>,
    pub observed_attributes: Seq<Seq<char>>,
}

#[verifier::ext_equal]
pub ghost struct HostView {
    pub elements: Seq<ElementView>,
    pub current_element: Option<int>,
    pub registry: Seq<DefinitionView>,
    pub console: Seq<Seq<char>>,
    pub alerts: Seq<Seq<char>>,
}

impl View for Attribute {
    type V = AttributeView;

    open spec fn view(&self) -> AttributeView {
        AttributeView { name: self.name@, value: self.value@ }
    }
}

impl View for Node {
    type V = NodeView;

    open spec fn view(&self) -> NodeView {
        match self {
            Node::Text { text } => NodeView::Text { text: text@ },
            Node::Elem { tag, html } => NodeView::Elem { tag: tag@, html: html@ },
        }
    }
}

impl View for ListenerAction {
    type V = ListenerActionView;

    open spec fn view(&self) -> ListenerActionView {
        match self {
            ListenerAction::ShowAlert { message } => ListenerActionView::ShowAlert {
                message: message@,
            },
            ListenerAction::LogMessage { message } => ListenerActionView::LogMessage {
                message: message@,
            },
        }
    }
}

impl View for Listener {
    type V = ListenerView;

    open spec fn view(&self) -> ListenerView {
        ListenerView { event_type: self.event_type@, action: self.action@ }
    }
}

/// The view of a list of owned strings.
pub open spec fn strings_view(v: Seq<String>) -> Seq<Seq<char>> {
    v.map_values(|s: String| s@)
}

/// The view of a list of borrowed names.
pub open spec fn names_view(names: Seq<&'static str>) -> Seq<Seq<char>> {
    names.map_values(|s: &'static str| s@)
}

/// The view of an attribute list.
pub open spec fn attrs_view(v: Seq<Attribute>) -> Seq<AttributeView> {
    v.map_values(|a: Attribute| a@)
}

/// The view of a markup subtree.
pub open spec fn nodes_view(v: Seq<Node>) -> Seq<NodeView> {
    v.map_values(|n: Node| n@)
}

/// The view of a listener list.
pub open spec fn listeners_view(v: Seq<Listener>) -> Seq<ListenerView> {
    v.map_values(|l: Listener| l@)
}

/// The view of the document's element list.
pub open spec fn elements_view(v: Seq<Element>) -> Seq<ElementView> {
    v.map_values(|e: Element| e@)
}

/// The view of the component registry.
pub open spec fn definitions_view(v: Seq<Definition>) -> Seq<DefinitionView> {
    v.map_values(|d: Definition| d@)
}

impl View for Element {
    type V = ElementView;

    open spec fn view(&self) -> ElementView {
        ElementView {
            attributes: attrs_view(self.attributes@),
            content: nodes_view(self.content@),
            listeners: listeners_view(self.listeners@),
        }
    }
}

impl View for Definition {
    type V = DefinitionView;

    open spec fn view(&self) -> DefinitionView {
        DefinitionView {
            tag_name: self.tag_name@,
            observed_attributes: strings_view(self.observed_attributes@),
        }
    }
}

impl View for Host {
    type V = HostView;

    open spec fn view(&self) -> HostView {
        HostView {
            elements: elements_view(self.elements@),
            current_element: match self.current_element {
                Some(i) => Some(i as int),
                None => None,
            },
            registry: definitions_view(self.registry@),
            console: strings_view(self.console@),
            alerts: strings_view(self.alerts@),
        }
    }
}

impl HostView {
    /// Well-formedness: when the shared slot points at an element, that
    /// element exists.
    pub open spec fn inv(self) -> bool {
        match self.current_element {
            Some(i) => 0 <= i < self.elements.len(),
            None => true,
        }
    }

    pub open spec fn with_elements(self, elements: Seq<ElementView>) -> HostView {
        HostView { elements, ..self }
    }

    pub open spec fn with_current(self, current_element: Option<int>) -> HostView {
        HostView { current_element, ..self }
    }

    pub open spec fn with_registry(self, registry: Seq<DefinitionView>) -> HostView {
        HostView { registry, ..self }
    }

    pub open spec fn with_console(self, console: Seq<Seq<char>>) -> HostView {
        HostView { console, ..self }
    }

    pub open spec fn with_alerts(self, alerts: Seq<Seq<char>>) -> HostView {
        HostView { alerts, ..self }
    }
}

impl ElementView {
    pub open spec fn with_attributes(self, attributes: Seq<AttributeView>) -> ElementView {
        ElementView { attributes, ..self }
    }

    pub open spec fn with_content(self, content: Seq<NodeView>) -> ElementView {
        ElementView { content, ..self }
    }

    pub open spec fn with_listeners(self, listeners: Seq<ListenerView>) -> ElementView {
        ElementView { listeners, ..self }
    }
}

// ---------------------------------------------------------------------------
// Specification-level operations on the model
// ---------------------------------------------------------------------------

/// The value of the first attribute named `name`, or the empty string when
/// the element has no such attribute.
pub open spec fn attr_value(attrs: Seq<AttributeView>, name: Seq<char>) -> Seq<char>
    decreases attrs.len(),
{
    if attrs.len() == 0 {
        Seq::empty()
    } else if attrs[0].name == name {
        attrs[0].value
    } else {
        attr_value(attrs.skip(1), name)
    }
}

/// Whether the element carries an attribute named `name`.
pub open spec fn has_attr(attrs: Seq<AttributeView>, name: Seq<char>) -> bool
    decreases attrs.len(),
{
    if attrs.len() == 0 {
        false
    } else if attrs[0].name == name {
        true
    } else {
        has_attr(attrs.skip(1), name)
    }
}

/// The attribute list after setting `name` to `value`: the first attribute
/// of that name is replaced, or a new one is appended at the end.
pub open spec fn set_attr(attrs: Seq<AttributeView>, name: Seq<char>, value: Seq<char>) -> Seq<
    AttributeView,
>
    decreases attrs.len(),
{
    if attrs.len() == 0 {
        seq![AttributeView { name, value }]
    } else if attrs[0].name == name {
        seq![AttributeView { name, value }] + attrs.skip(1)
    } else {
        seq![attrs[0]] + set_attr(attrs.skip(1), name, value)
    }
}

/// Whether a markup node is a descendant element that the given selector
/// (a tag name) matches.
pub open spec fn node_matches(n: NodeView, tag: Seq<char>) -> bool {
    match n {
        NodeView::Elem { tag: t, html: _ } => t == tag,
        NodeView::Text { text: _ } => false,
    }
}

/// The markup subtree after replacing the inner markup of the first
/// descendant the selector matches; unchanged when nothing matches.
pub open spec fn set_child(content: Seq<NodeView>, tag: Seq<char>, html: Seq<char>) -> Seq<
    NodeView,
>
    decreases content.len(),
{
    if content.len() == 0 {
        content
    } else if node_matches(content[0], tag) {
        seq![NodeView::Elem { tag, html }] + content.skip(1)
    } else {
        seq![content[0]] + set_child(content.skip(1), tag, html)
    }
}

/// The dialog messages one listener contributes when the given event
/// fires.
pub open spec fn alert_of(l: ListenerView, event: Seq<char>) -> Seq<Seq<char>> {
    if l.event_type == event {
        match l.action {
            ListenerActionView::ShowAlert { message } => seq![message],
            ListenerActionView::LogMessage { message: _ } => Seq::empty(),
        }
    } else {
        Seq::empty()
    }
}

/// The console messages one listener contributes when the given event
/// fires.
pub open spec fn log_of(l: ListenerView, event: Seq<char>) -> Seq<Seq<char>> {
    if l.event_type == event {
        match l.action {
            ListenerActionView::ShowAlert { message: _ } => Seq::empty(),
            ListenerActionView::LogMessage { message } => seq![message],
        }
    } else {
        Seq::empty()
    }
}

/// The dialog messages an element's listeners raise, in registration
/// order, when the given event fires on it.
pub open spec fn fired_alerts(listeners: Seq<ListenerView>, event: Seq<char>) -> Seq<Seq<char>>
    decreases listeners.len(),
{
    if listeners.len() == 0 {
        Seq::empty()
    } else {
        alert_of(listeners[0], event) + fired_alerts(listeners.skip(1), event)
    }
}

/// The console messages an element's listeners write, in registration
/// order, when the given event fires on it.
pub open spec fn fired_logs(listeners: Seq<ListenerView>, event: Seq<char>) -> Seq<Seq<char>>
    decreases listeners.len(),
{
    if listeners.len() == 0 {
        Seq::empty()
    } else {
        log_of(listeners[0], event) + fired_logs(listeners.skip(1), event)
    }
}

/// One more listener at the end contributes its own messages at the end.
pub proof fn lemma_fired_push(listeners: Seq<ListenerView>, l: ListenerView, event: Seq<char>)
    ensures
        fired_alerts(listeners.push(l), event) == fired_alerts(listeners, event) + alert_of(
            l,
            event,
        ),
        fired_logs(listeners.push(l), event) == fired_logs(listeners, event) + log_of(l, event),
    decreases listeners.len(),
{
    if listeners.len() == 0 {
        let pushed = listeners.push(l);
        assert(pushed.len() == 1);
        assert(pushed[0] == l);
        assert(pushed.skip(1) =~= Seq::<ListenerView>::empty());
        assert(fired_alerts(pushed.skip(1), event) == Seq::<Seq<char>>::empty());
        assert(fired_alerts(pushed, event) == alert_of(l, event) + Seq::<Seq<char>>::empty());
        assert(alert_of(l, event) + Seq::<Seq<char>>::empty() =~= Seq::<Seq<char>>::empty()
            + alert_of(l, event));
        assert(fired_alerts(listeners, event) == Seq::<Seq<char>>::empty());
        assert(fired_logs(pushed.skip(1), event) == Seq::<Seq<char>>::empty());
        assert(fired_logs(pushed, event) == log_of(l, event) + Seq::<Seq<char>>::empty());
        assert(log_of(l, event) + Seq::<Seq<char>>::empty() =~= Seq::<Seq<char>>::empty()
            + log_of(l, event));
        assert(fired_logs(listeners, event) == Seq::<Seq<char>>::empty());
    } else {
        lemma_fired_push(listeners.skip(1), l, event);
        assert(listeners.push(l).skip(1) =~= listeners.skip(1).push(l));
        assert(fired_alerts(listeners.push(l), event) =~= fired_alerts(listeners, event)
            + alert_of(l, event));
        assert(fired_logs(listeners.push(l), event) =~= fired_logs(listeners, event) + log_of(
            l,
            event,
        ));
    }
}

/// Setting an attribute the element already carries replaces exactly its
/// first occurrence, here named by its index.
pub proof fn lemma_set_attr_first_match(
    attrs: Seq<AttributeView>,
    name: Seq<char>,
    value: Seq<char>,
    k: int,
)
    requires
        0 <= k < attrs.len(),
        attrs[k].name == name,
        forall|j: int| 0 <= j < k ==> attrs[j].name != name,
    ensures
        set_attr(attrs, name, value) == attrs.update(k, AttributeView { name, value }),
    decreases k,
{
    let replacement = AttributeView { name, value };
    if k == 0 {
        assert(seq![replacement] + attrs.skip(1) =~= attrs.update(0, replacement));
    } else {
        lemma_set_attr_first_match(attrs.skip(1), name, value, k - 1);
        assert(attrs.skip(1).update(k - 1, replacement) =~= attrs.update(k, replacement).skip(1));
        assert(seq![attrs[0]] + attrs.update(k, replacement).skip(1) =~= attrs.update(
            k,
            replacement,
        ));
    }
}

/// Setting an attribute the element does not carry appends it at the end.
pub proof fn lemma_set_attr_no_match(attrs: Seq<AttributeView>, name: Seq<char>, value: Seq<char>)
    requires
        forall|j: int| 0 <= j < attrs.len() ==> attrs[j].name != name,
    ensures
        set_attr(attrs, name, value) == attrs.push(AttributeView { name, value }),
    decreases attrs.len(),
{
    let replacement = AttributeView { name, value };
    if attrs.len() == 0 {
        assert(seq![replacement] =~= attrs.push(replacement));
    } else {
        lemma_set_attr_no_match(attrs.skip(1), name, value);
        assert(seq![attrs[0]] + attrs.skip(1).push(replacement) =~= attrs.push(replacement));
    }
}

/// Writing child content with a selector that matches nothing leaves the
/// markup subtree exactly as it was.
pub proof fn lemma_set_child_no_match(content: Seq<NodeView>, tag: Seq<char>, html: Seq<char>)
    requires
        forall|j: int| 0 <= j < content.len() ==> !node_matches(content[j], tag),
    ensures
        set_child(content, tag, html) == content,
    decreases content.len(),
{
    if content.len() > 0 {
        lemma_set_child_no_match(content.skip(1), tag, html);
        assert(seq![content[0]] + content.skip(1) =~= content);
    }
}

/// Writing child content replaces exactly the first matching descendant,
/// here named by its index.
pub proof fn lemma_set_child_first_match(
    content: Seq<NodeView>,
    tag: Seq<char>,
    html: Seq<char>,
    k: int,
)
    requires
        0 <= k < content.len(),
        node_matches(content[k], tag),
        forall|j: int| 0 <= j < k ==> !node_matches(content[j], tag),
    ensures
        set_child(content, tag, html) == content.update(k, NodeView::Elem { tag, html }),
    decreases k,
{
    let replacement = NodeView::Elem { tag, html };
    if k == 0 {
        assert(seq![replacement] + content.skip(1) =~= content.update(0, replacement));
    } else {
        lemma_set_child_first_match(content.skip(1), tag, html, k - 1);
        assert(content.skip(1).update(k - 1, replacement) =~= content.update(k,
            replacement,
        ).skip(1));
        assert(seq![content[0]] + content.update(k, replacement).skip(1) =~= content.update(
            k,
            replacement,
        ));
    }
}

// ---------------------------------------------------------------------------
// Executable string utilities
// ---------------------------------------------------------------------------

/// String equality over the character sequences the contracts speak of.
pub fn str_eq(a: &str, b: &str) -> (r: bool)
    ensures
        r == (a@ == b@),
{
    let sa: String = a.to_owned();
    let sb: String = b.to_owned();
    sa == sb
}

} // verus!
