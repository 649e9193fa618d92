//! Reading a keybinding source written as XML.
//!
//! A binding source is a document whose root holds `binding` child elements,
//! each with a `key` attribute, a `command` attribute, and an optional `mod`
//! attribute.  The document is parsed by the `xmltree` crate; which children
//! count as bindings, which attributes are read, and how the table is built
//! and validated is all verified logic.
//!
//! The trusted surface is kept generic: parsing is a pure function of the
//! input text, so its result is given a name, `spec_parsed_children`, and
//! the accessors below are specified against `spec_children_of`, the named
//! contents of a parsed element.  Everything the resolver table means is
//! then pinned, through those names, by `initialize_keybinds`' contract.

use crate::command::str_eq;
use crate::keymap::{
    keymap_from_records, spec_first_error_from, spec_records_resolve, spec_records_view,
    BindingRecord, BindingRecordView, ConfigError, Keymap,
};
use vstd::prelude::*;

verus! {

#[verifier::external_type_specification]
#[verifier::external_body]
pub struct ExElement(xmltree::Element);

/// The observable content of one child node of an element: its name and
/// attributes when it is an element, nothing when it is text, a comment, or
/// another non-element node.
#[verifier::ext_equal]
pub ghost struct ChildElementView {
    pub name: Seq<char>,
    pub attributes: Map<Seq<char>, Seq<char>>,
}

/// What a parsed element holds: the models of its children, in document
/// order.
pub uninterp spec fn spec_children_of(e: xmltree::Element) -> Seq<Option<ChildElementView>>;

/// What `xmltree::Element::parse` returns for a given text: nothing when the
/// text is not a well-formed document, else the root element's children.
/// Parsing is a function of the text alone.
pub uninterp spec fn spec_parsed_children(s: Seq<char>) -> Option<Seq<Option<ChildElementView>>>;

/// Relies on `xmltree::Element::parse`: parses a whole document into its
/// root element, failing exactly on malformed markup.
#[verifier::external_body]
fn parse_xml_document(s: &str) -> (r: Option<xmltree::Element>)
    ensures
        (r is Some) == (spec_parsed_children(s@) is Some),
        r matches Some(e) ==> Some(spec_children_of(e)) == spec_parsed_children(s@),
{
    xmltree::Element::parse(s.as_bytes()).ok()
}

/// Relies on `xmltree::Element`'s public `children` vector: its length.
#[verifier::external_body]
fn child_count(e: &xmltree::Element) -> (r: usize)
    ensures
        r as nat == spec_children_of(*e).len(),
{
    e.children.len()
}

/// Relies on `xmltree::Element`'s public `children` vector: the name of the
/// `i`-th child when that child is an element.
#[verifier::external_body]
fn child_element_name(e: &xmltree::Element, i: usize) -> (r: Option<String>)
    ensures
        match r {
            Some(name) => i < spec_children_of(*e).len() && (spec_children_of(
                *e,
            )[i as int] matches Some(c) && c.name == name@),
            None => i >= spec_children_of(*e).len() || spec_children_of(*e)[i as int] is None,
        },
{
    match e.children.get(i) {
        Some(xmltree::XMLNode::Element(b)) => Some(b.name.clone()),
        _ => None,
    }
}

/// Relies on `xmltree::Element`'s public `children` vector and `attributes`
/// map: the named attribute of the `i`-th child when that child is an
/// element carrying it.
#[verifier::external_body]
fn child_attribute(e: &xmltree::Element, i: usize, attr: &str) -> (r: Option<String>)
    ensures
        match r {
            Some(value) => i < spec_children_of(*e).len() && (spec_children_of(
                *e,
            )[i as int] matches Some(c) && c.attributes.contains_key(attr@)
                && c.attributes[attr@] == value@),
            None => i >= spec_children_of(*e).len() || spec_children_of(*e)[i as int] is None || (
            spec_children_of(*e)[i as int] matches Some(c) && !c.attributes.contains_key(attr@)),
        },
{
    match e.children.get(i) {
        Some(xmltree::XMLNode::Element(b)) => b.attributes.get(attr).cloned(),
        _ => None,
    }
}

/// The binding record one child contributes: a child element named
/// `binding` yields its `key`, `command` and `mod` attributes; every other
/// child contributes nothing.
pub open spec fn spec_child_record(c: Option<ChildElementView>) -> Option<BindingRecordView> {
    match c {
        Option::Some(el) => if el.name == "binding"@ {
            Some(
                BindingRecordView {
                    key: if el.attributes.contains_key("key"@) {
                        Some(el.attributes["key"@])
                    } else {
                        None
                    },
                    command: if el.attributes.contains_key("command"@) {
                        Some(el.attributes["command"@])
                    } else {
                        None
                    },
                    modifier: if el.attributes.contains_key("mod"@) {
                        Some(el.attributes["mod"@])
                    } else {
                        None
                    },
                },
            )
        } else {
            None
        },
        Option::None => None,
    }
}

/// All binding records a child list contributes, in document order.
pub open spec fn spec_records_of_children(cs: Seq<Option<ChildElementView>>) -> Seq<
    BindingRecordView,
>
    decreases cs.len(),
{
    if cs.len() == 0 {
        Seq::empty()
    } else {
        let prefix = spec_records_of_children(cs.drop_last());
        match spec_child_record(cs.last()) {
            Option::Some(rv) => prefix.push(rv),
            Option::None => prefix,
        }
    }
}

/// Builds the resolver table from an XML binding source.  Text that is not
/// a well-formed document is rejected as `MalformedDocument`; otherwise the
/// root's `binding` children become records in document order, the first
/// invalid record is fatal and reported by position and kind, and on
/// success the table resolves exactly what the records say.
pub fn initialize_keybinds(xml: &str) -> (r: Result<Keymap, ConfigError>)
    ensures
        spec_parsed_children(xml@) is None ==> r == Err::<Keymap, ConfigError>(
            ConfigError::MalformedDocument,
        ),
        spec_parsed_children(xml@) matches Some(children) ==> {
            let records = spec_records_of_children(children);
            &&& ((r is Ok) <==> spec_first_error_from(records, 0) is None)
            &&& (r matches Err(e) ==> spec_first_error_from(records, 0) == Some(e))
            &&& (r matches Ok(km) ==> km.wf() && forall|k: u32, m: crate::command::CommandMod|
                km.spec_resolve(k, m) == spec_records_resolve(records, k, m))
        },
{
    let root = match parse_xml_document(xml) {
        Some(root) => root,
        None => {
            return Err(ConfigError::MalformedDocument);
        },
    };
    let ghost children = spec_children_of(root);
    let n = child_count(&root);
    let mut records: Vec<BindingRecord> = Vec::new();
    let mut i: usize = 0;
    while i < n
        invariant
            children == spec_children_of(root),
            n as nat == children.len(),
            i <= n,
            spec_records_view(records@) == spec_records_of_children(
                children.subrange(0, i as int),
            ),
        decreases n - i,
    {
        let is_binding = match child_element_name(&root, i) {
            Some(name) => str_eq(name.as_str(), "binding"),
            None => false,
        };
        if is_binding {
            let key = child_attribute(&root, i, "key");
            let command = child_attribute(&root, i, "command");
            let modifier = child_attribute(&root, i, "mod");
            records.push(BindingRecord { key, command, modifier });
            proof {
                let pushed = records@[records@.len() - 1]@;
                assert(pushed == spec_child_record(children[i as int]).unwrap());
            }
        }
        proof {
            let sub1 = children.subrange(0, i + 1 as int);
            assert(sub1.drop_last() =~= children.subrange(0, i as int));
            assert(sub1.last() == children[i as int]);
            assert(spec_records_view(records@) =~= spec_records_of_children(
                children.subrange(0, i + 1 as int),
            ));
        }
        i = i + 1;
    }
    proof {
        assert(children.subrange(0, n as int) =~= children);
        assert(spec_records_view(records@) =~= spec_records_of_children(children));
    }
    keymap_from_records(&records)
}

} // verus!
