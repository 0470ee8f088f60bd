//! The component registrar and the dispatch shim.
//!
//! A component is a typed description: a tag name, an observed-attribute
//! list, and four lifecycle handlers. Registering it records a definition
//! with the host: the tag name together with the observed list as the host
//! reconstructs it from its serialized form. Every lifecycle invocation
//! runs inside a bracket on the shared "current element" slot: the shim
//! sets the slot to the element receiving the callback, invokes the typed
//! handler, and clears the slot again.

use vstd::prelude::*;

use crate::attributes::delimiter_free;
use crate::attributes::join_attributes;
use crate::attributes::lemma_split_join_round_trip;
use crate::attributes::spec_join;
use crate::attributes::spec_split;
use crate::attributes::split_attributes;
use crate::helpers::attrs_lookup;
use crate::helpers::lemma_attr_value_absent;
use crate::model::attr_value;
use crate::model::attrs_view;
use crate::model::lemma_set_attr_first_match;
use crate::model::lemma_set_attr_no_match;
use crate::model::names_view;
use crate::model::set_attr;
use crate::model::str_eq;
use crate::model::strings_view;
use crate::model::Attribute;
use crate::model::AttributeView;
use crate::model::Definition;
use crate::model::DefinitionView;
use crate::model::Host;
use crate::model::HostView;

verus! {

/// A typed description of a custom element: its static metadata, its four
/// lifecycle handlers, and one effect relation per handler saying what the
/// handler does to the host. Handlers receive the host explicitly; each
/// one runs with the shared slot pointing at its element and must leave
/// the slot, and the set of elements, as it found them — a handler that
/// triggered another lifecycle bracket before its own closed would
/// overwrite the slot mid-handler. A component whose handler does nothing
/// keeps the relation's default — no change — and implements the handler
/// as an empty body.
pub trait WebComponent: Sized {
    /// The element's tag name.
    spec fn spec_element_name() -> Seq<char>;

    /// The attribute names whose changes the component observes.
    spec fn spec_observable_attributes() -> Seq<Seq<char>>;

    /// How the host after the constructor relates to the host before it;
    /// `pre` already carries the slot pointing at the element under
    /// construction.
    open spec fn constructor_post(pre: HostView, post: HostView) -> bool {
        post == pre
    }

    /// How the host after `connectedCallback` relates to the host before
    /// it; `pre` already carries the slot pointing at the element.
    open spec fn connected_post(pre: HostView, post: HostView) -> bool {
        post == pre
    }

    /// How the host after `disconnectedCallback` relates to the host
    /// before it; `pre` already carries the slot pointing at the element.
    open spec fn disconnected_post(pre: HostView, post: HostView) -> bool {
        post == pre
    }

    /// How the host after `attributeChangedCallback` relates to the host
    /// before it, given the changed attribute's name and the normalized
    /// old and new values; `pre` already carries the slot pointing at the
    /// element.
    open spec fn attribute_changed_post(
        pre: HostView,
        post: HostView,
        attribute_name: Seq<char>,
        old_value: Seq<char>,
        new_value: Seq<char>,
    ) -> bool {
        post == pre
    }

    fn get_element_name() -> (r: &'static str)
        ensures
            r@ == Self::spec_element_name(),
    ;

    fn get_observable_attributes() -> (r: Vec<&'static str>)
        ensures
            names_view(r@) == Self::spec_observable_attributes(),
    ;

    fn constructor(host: &mut Host)
        requires
            old(host)@.inv(),
            old(host)@.current_element is Some,
        ensures
            final(host)@.inv(),
            final(host)@.current_element == old(host)@.current_element,
            final(host)@.elements.len() == old(host)@.elements.len(),
            Self::constructor_post(old(host)@, final(host)@),
    ;

    fn connected(host: &mut Host)
        requires
            old(host)@.inv(),
            old(host)@.current_element is Some,
        ensures
            final(host)@.inv(),
            final(host)@.current_element == old(host)@.current_element,
            final(host)@.elements.len() == old(host)@.elements.len(),
            Self::connected_post(old(host)@, final(host)@),
    ;

    fn disconnected(host: &mut Host)
        requires
            old(host)@.inv(),
            old(host)@.current_element is Some,
        ensures
            final(host)@.inv(),
            final(host)@.current_element == old(host)@.current_element,
            final(host)@.elements.len() == old(host)@.elements.len(),
            Self::disconnected_post(old(host)@, final(host)@),
    ;

    fn attribute_changed(
        host: &mut Host,
        attribute_name: String,
        old_value: String,
        new_value: String,
    )
        requires
            old(host)@.inv(),
            old(host)@.current_element is Some,
        ensures
            final(host)@.inv(),
            final(host)@.current_element == old(host)@.current_element,
            final(host)@.elements.len() == old(host)@.elements.len(),
            Self::attribute_changed_post(
                old(host)@,
                final(host)@,
                attribute_name@,
                old_value@,
                new_value@,
            ),
    ;
}

/// Registers a component with the host: one new definition, carrying the
/// component's tag name and the observed-attribute list as the receiving
/// side reconstructs it from the delimiter-joined form. For a non-empty
/// list of delimiter-free names the recorded list is exactly the
/// component's own. The host raises on a duplicate tag name; the adapter
/// does not handle that locally. Registration also clears the shared slot.
pub fn define_web_component<T: WebComponent>(host: &mut Host, _component: T)
    ensures
        final(host)@.inv(),
        final(host)@.current_element is None,
        final(host)@.registry == old(host)@.registry.push(
            DefinitionView {
                tag_name: T::spec_element_name(),
                observed_attributes: spec_split(spec_join(T::spec_observable_attributes())),
            },
        ),
        final(host)@.elements == old(host)@.elements,
        final(host)@.console == old(host)@.console,
        final(host)@.alerts == old(host)@.alerts,
        T::spec_observable_attributes().len() >= 1 && delimiter_free(
            T::spec_observable_attributes(),
        ) ==> final(host)@.registry.last().observed_attributes
            == T::spec_observable_attributes(),
{
    host.current_element = None;
    let names = T::get_observable_attributes();
    let joined = join_attributes(&names);
    let observed = split_attributes(joined.as_str());
    let tag = T::get_element_name().to_owned();
    host.registry.push(Definition { tag_name: tag, observed_attributes: observed });
    proof {
        let entry = DefinitionView {
            tag_name: T::spec_element_name(),
            observed_attributes: spec_split(spec_join(T::spec_observable_attributes())),
        };
        assert(host@.registry =~~= old(host)@.registry.push(entry));
        if T::spec_observable_attributes().len() >= 1 && delimiter_free(
            T::spec_observable_attributes(),
        ) {
            lemma_split_join_round_trip(T::spec_observable_attributes());
        }
    }
}

/// Opens a dispatch bracket: the shared slot now points at the element
/// about to receive a callback, and at nothing else.
pub fn begin_dispatch(host: &mut Host, element: usize)
    requires
        old(host)@.inv(),
        old(host)@.current_element is None,
        (element as int) < old(host)@.elements.len(),
    ensures
        final(host)@ == old(host)@.with_current(Some(element as int)),
        final(host)@.inv(),
{
    host.current_element = Some(element);
    proof {
        assert(host@ =~~= old(host)@.with_current(Some(element as int)));
    }
}

/// Closes a dispatch bracket: the shared slot is null again, whatever the
/// handler did to the rest of the host.
pub fn end_dispatch(host: &mut Host)
    ensures
        final(host)@ == old(host)@.with_current(None),
{
    host.current_element = None;
    proof {
        assert(host@ =~~= old(host)@.with_current(None));
    }
}

/// The lifecycle bracket for the generated class's `constructor`: point
/// the shared slot at the element, invoke the typed handler, clear the
/// slot. The slot is null again the moment the bracket closes.
pub fn invoke_constructor<T: WebComponent>(host: &mut Host, element: usize)
    requires
        old(host)@.inv(),
        old(host)@.current_element is None,
        (element as int) < old(host)@.elements.len(),
    ensures
        final(host)@.inv(),
        final(host)@.current_element is None,
        final(host)@.elements.len() == old(host)@.elements.len(),
        exists|mid: HostView|
            {
                &&& #[trigger] T::constructor_post(
                    old(host)@.with_current(Some(element as int)),
                    mid,
                )
                &&& mid.current_element == Some(element as int)
                &&& final(host)@ == mid.with_current(None)
            },
{
    begin_dispatch(host, element);
    T::constructor(host);
    // the handler ran with the slot at its element and left it there
    assert(host@.current_element == Some(element as int));
    let ghost mid = host@;
    end_dispatch(host);
    proof {
        assert(T::constructor_post(old(host)@.with_current(Some(element as int)), mid));
        assert(host@ == mid.with_current(None));
    }
}

/// The lifecycle bracket for `connectedCallback`; see `invoke_constructor`.
pub fn invoke_connected<T: WebComponent>(host: &mut Host, element: usize)
    requires
        old(host)@.inv(),
        old(host)@.current_element is None,
        (element as int) < old(host)@.elements.len(),
    ensures
        final(host)@.inv(),
        final(host)@.current_element is None,
        final(host)@.elements.len() == old(host)@.elements.len(),
        exists|mid: HostView|
            {
                &&& #[trigger] T::connected_post(
                    old(host)@.with_current(Some(element as int)),
                    mid,
                )
                &&& mid.current_element == Some(element as int)
                &&& final(host)@ == mid.with_current(None)
            },
{
    begin_dispatch(host, element);
    T::connected(host);
    assert(host@.current_element == Some(element as int));
    let ghost mid = host@;
    end_dispatch(host);
    proof {
        assert(T::connected_post(old(host)@.with_current(Some(element as int)), mid));
        assert(host@ == mid.with_current(None));
    }
}

/// The lifecycle bracket for `disconnectedCallback`; see
/// `invoke_constructor`.
pub fn invoke_disconnected<T: WebComponent>(host: &mut Host, element: usize)
    requires
        old(host)@.inv(),
        old(host)@.current_element is None,
        (element as int) < old(host)@.elements.len(),
    ensures
        final(host)@.inv(),
        final(host)@.current_element is None,
        final(host)@.elements.len() == old(host)@.elements.len(),
        exists|mid: HostView|
            {
                &&& #[trigger] T::disconnected_post(
                    old(host)@.with_current(Some(element as int)),
                    mid,
                )
                &&& mid.current_element == Some(element as int)
                &&& final(host)@ == mid.with_current(None)
            },
{
    begin_dispatch(host, element);
    T::disconnected(host);
    assert(host@.current_element == Some(element as int));
    let ghost mid = host@;
    end_dispatch(host);
    proof {
        assert(T::disconnected_post(old(host)@.with_current(Some(element as int)), mid));
        assert(host@ == mid.with_current(None));
    }
}

/// An attribute value as the host hands it to the callback: an absent
/// value reads as the empty string.
pub open spec fn spec_normalized(value: Option<String>) -> Seq<char> {
    match value {
        Some(s) => s@,
        None => Seq::empty(),
    }
}

/// An attribute value as the host hands it to the callback: absent values
/// are normalized to the empty string, so a typed handler cannot tell an
/// absent attribute from one explicitly set to the empty string.
pub fn normalize_value(value: Option<String>) -> (r: String)
    ensures
        r@ == spec_normalized(value),
{
    match value {
        Some(s) => s,
        None => String::new(),
    }
}

/// The lifecycle bracket for `attributeChangedCallback`: normalizes the
/// absent old and new values to empty strings, then dispatches inside the
/// set/invoke/clear bracket; see `invoke_constructor`.
pub fn invoke_attribute_changed<T: WebComponent>(
    host: &mut Host,
    element: usize,
    attribute_name: &str,
    old_value: Option<String>,
    new_value: Option<String>,
)
    requires
        old(host)@.inv(),
        old(host)@.current_element is None,
        (element as int) < old(host)@.elements.len(),
    ensures
        final(host)@.inv(),
        final(host)@.current_element is None,
        final(host)@.elements.len() == old(host)@.elements.len(),
        exists|mid: HostView|
            {
                &&& #[trigger] T::attribute_changed_post(
                    old(host)@.with_current(Some(element as int)),
                    mid,
                    attribute_name@,
                    spec_normalized(old_value),
                    spec_normalized(new_value),
                )
                &&& mid.current_element == Some(element as int)
                &&& final(host)@ == mid.with_current(None)
            },
{
    begin_dispatch(host, element);
    let old_s = normalize_value(old_value);
    let new_s = normalize_value(new_value);
    T::attribute_changed(host, attribute_name.to_owned(), old_s, new_s);
    assert(host@.current_element == Some(element as int));
    let ghost mid = host@;
    end_dispatch(host);
    proof {
        assert(T::attribute_changed_post(
            old(host)@.with_current(Some(element as int)),
            mid,
            attribute_name@,
            spec_normalized(old_value),
            spec_normalized(new_value),
        ));
        assert(host@ == mid.with_current(None));
    }
}

/// The index of the first attribute of the given name, if the element
/// carries one.
fn attrs_find(attrs: &Vec<Attribute>, name: &str) -> (r: Option<usize>)
    ensures
        match r {
            Some(j) => {
                &&& (j as int) < attrs@.len()
                &&& attrs_view(attrs@)[j as int].name == name@
                &&& forall|t: int| 0 <= t < j ==> attrs_view(attrs@)[t].name != name@
            },
            None => forall|t: int|
                0 <= t < attrs@.len() ==> attrs_view(attrs@)[t].name != name@,
        },
{
    let mut j: usize = 0;
    while j < attrs.len()
        invariant
            0 <= j <= attrs@.len(),
            forall|t: int| 0 <= t < j ==> attrs_view(attrs@)[t].name != name@,
        decreases attrs@.len() - j,
    {
        if str_eq(attrs[j].name.as_str(), name) {
            return Some(j);
        }
        j += 1;
    }
    None
}

/// Sets an attribute in an element's attribute list: the first occurrence
/// is replaced, or a new attribute is appended.
fn attrs_set(attrs: &mut Vec<Attribute>, name: &str, value: &str)
    ensures
        attrs_view(final(attrs)@) == set_attr(attrs_view(old(attrs)@), name@, value@),
{
    let ghost av = attrs_view(old(attrs)@);
    let found = attrs_find(attrs, name);
    match found {
        Some(j) => {
            attrs[j] = Attribute { name: name.to_owned(), value: value.to_owned() };
            proof {
                lemma_set_attr_first_match(av, name@, value@, j as int);
                assert(attrs_view(attrs@) =~= av.update(
                    j as int,
                    AttributeView { name: name@, value: value@ },
                ));
            }
        },
        None => {
            attrs.push(Attribute { name: name.to_owned(), value: value.to_owned() });
            proof {
                lemma_set_attr_no_match(av, name@, value@);
                assert(attrs_view(attrs@) =~= av.push(
                    AttributeView { name: name@, value: value@ },
                ));
            }
        },
    }
}

/// Whether the list of observed names contains the given name.
fn contains_name(list: &Vec<String>, name: &str) -> (r: bool)
    ensures
        r == strings_view(list@).contains(name@),
{
    let mut j: usize = 0;
    while j < list.len()
        invariant
            0 <= j <= list@.len(),
            forall|t: int| 0 <= t < j ==> strings_view(list@)[t] != name@,
        decreases list@.len() - j,
    {
        if str_eq(list[j].as_str(), name) {
            proof {
                assert(strings_view(list@)[j as int] == name@);
            }
            return true;
        }
        j += 1;
    }
    proof {
        assert(!strings_view(list@).contains(name@));
    }
    false
}

/// The host's state once an attribute write has been recorded and before
/// any callback runs.
pub open spec fn after_attribute_write(
    pre: HostView,
    element: int,
    name: Seq<char>,
    value: Seq<char>,
) -> HostView {
    pre.with_elements(
        pre.elements.update(
            element,
            pre.elements[element].with_attributes(
                set_attr(pre.elements[element].attributes, name, value),
            ),
        ),
    )
}

/// The host's side of an attribute change: the attribute is written, and
/// `attributeChangedCallback` fires only when the name stands in the
/// registered definition's observed list. For any other name the change
/// leaves everything but that one attribute value untouched — no handler
/// runs at all. For an observed name the final state is the written state
/// run through the component's attribute-changed bracket, the callback
/// receiving the value before the change (the empty string when the
/// element did not carry the attribute) and the value written.
pub fn host_set_attribute<T: WebComponent>(
    host: &mut Host,
    element: usize,
    definition: &Definition,
    name: &str,
    value: &str,
)
    requires
        old(host)@.inv(),
        old(host)@.current_element is None,
        (element as int) < old(host)@.elements.len(),
    ensures
        final(host)@.inv(),
        final(host)@.current_element is None,
        final(host)@.elements.len() == old(host)@.elements.len(),
        !definition@.observed_attributes.contains(name@) ==> final(host)@
            == after_attribute_write(old(host)@, element as int, name@, value@),
        definition@.observed_attributes.contains(name@) ==> exists|mid: HostView|
            {
                &&& #[trigger] T::attribute_changed_post(
                    after_attribute_write(old(host)@, element as int, name@, value@).with_current(
                        Some(element as int),
                    ),
                    mid,
                    name@,
                    attr_value(old(host)@.elements[element as int].attributes, name@),
                    value@,
                )
                &&& mid.current_element == Some(element as int)
                &&& final(host)@ == mid.with_current(None)
            },
{
    let ghost h0 = host@;
    let old_value = attrs_lookup(&host.elements[element].attributes, name);
    let ghost ov = old_value;
    proof {
        assert(h0.elements[element as int].attributes == attrs_view(
            host.elements@[element as int].attributes@,
        ));
        if old_value is None {
            lemma_attr_value_absent(h0.elements[element as int].attributes, name@);
        }
        assert(spec_normalized(ov) == attr_value(h0.elements[element as int].attributes, name@));
    }
    attrs_set(&mut host.elements[element].attributes, name, value);
    proof {
        assert(host@.elements =~~= h0.elements.update(
            element as int,
            h0.elements[element as int].with_attributes(
                set_attr(h0.elements[element as int].attributes, name@, value@),
            ),
        ));
        assert(host@ =~~= after_attribute_write(h0, element as int, name@, value@));
    }
    if contains_name(&definition.observed_attributes, name) {
        let new_owned = Some(value.to_owned());
        let ghost nv = new_owned;
        invoke_attribute_changed::<T>(host, element, name, old_value, new_owned);
        proof {
            let written = after_attribute_write(h0, element as int, name@, value@);
            let mid = choose|m: HostView|
                {
                    &&& #[trigger] T::attribute_changed_post(
                        written.with_current(Some(element as int)),
                        m,
                        name@,
                        spec_normalized(ov),
                        spec_normalized(nv),
                    )
                    &&& m.current_element == Some(element as int)
                    &&& host@ == m.with_current(None)
                };
            assert(spec_normalized(nv) == value@);
            assert(T::attribute_changed_post(
                written.with_current(Some(element as int)),
                mid,
                name@,
                attr_value(h0.elements[element as int].attributes, name@),
                value@,
            ));
            assert(mid.current_element == Some(element as int));
            assert(host@ == mid.with_current(None));
        }
    }
}

} // verus!
