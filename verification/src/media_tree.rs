//! Finding values in a media info document, where names are compared without
//! regard to case.

use vstd::prelude::*;
use vstd::string::*;

use crate::numerals::{parse_signed, parse_unsigned, read_i32, read_unsigned};
use crate::text::strs_view;
use crate::xml::{
    elements_view, lemma_elements_view_at, lemma_elements_view_len, text_view, Element, XmlElement,
};
use crate::xml_utils::{
    local_name_eq_ignore_case, names_ignore_case, non_blank, non_empty_owned_text,
};

verus! {

broadcast use lemma_elements_view_len;

/// An element and everything inside it, in document order.
pub open spec fn family(e: Element) -> Seq<Element>
    decreases e, 0nat,
{
    seq![e] + families(e.children)
}

/// The families of elements, one after the other.
pub open spec fn families(elements: Seq<Element>) -> Seq<Element>
    decreases elements, 1nat,
{
    if elements.len() == 0 {
        Seq::empty()
    } else {
        family(elements[0]) + families(elements.drop_first())
    }
}

/// The predicate of the elements with a name.
pub open spec fn named(name: Seq<char>) -> spec_fn(Element) -> bool {
    |e: Element| names_ignore_case(e.name, name)
}

/// The elements of a family that have a name, in document order.
#[verifier::opaque]
pub open spec fn namesakes(root: Element, name: Seq<char>) -> Seq<Element> {
    family(root).filter(named(name))
}

/// The elements of families that have a name, in document order.
#[verifier::opaque]
pub open spec fn namesakes_among(elements: Seq<Element>, name: Seq<char>) -> Seq<Element> {
    families(elements).filter(named(name))
}

/// The first element of a family that has a name.
pub open spec fn first_namesake(root: Element, name: Seq<char>) -> Option<Element> {
    if namesakes(root, name).len() > 0 {
        Some(namesakes(root, name)[0])
    } else {
        None
    }
}

/// What an optional element stands for.
pub open spec fn node_view(node: Option<&XmlElement>) -> Option<Element> {
    match node {
        Some(e) => Some(e@),
        None => None,
    }
}

/// The elements with a name: the element itself, where it has the name, and those
/// inside its children.
pub proof fn lemma_namesakes(e: Element, name: Seq<char>)
    ensures
        namesakes(e, name) == (if names_ignore_case(e.name, name) {
            seq![e]
        } else {
            Seq::empty()
        }) + namesakes_among(e.children, name),
{
    reveal(namesakes);
    reveal(namesakes_among);
    Seq::filter_distributes_over_add(seq![e], families(e.children), named(name));
    assert(Seq::<Element>::empty().filter(named(name)) =~= Seq::<Element>::empty());
    Seq::<Element>::empty().lemma_filter_push(e, named(name));
    assert(Seq::<Element>::empty().push(e) =~= seq![e]);
}

proof fn lemma_namesakes_skip(elements: Seq<Element>, i: int, name: Seq<char>)
    requires
        0 <= i < elements.len(),
    ensures
        namesakes_among(elements.skip(i), name) == namesakes(elements[i], name) + namesakes_among(
            elements.skip(i + 1),
            name,
        ),
{
    reveal(namesakes);
    reveal(namesakes_among);
    let rest = elements.skip(i);
    assert(rest[0] == elements[i]);
    assert(rest.drop_first() =~= elements.skip(i + 1));
    Seq::filter_distributes_over_add(
        family(rest[0]),
        families(elements.skip(i + 1)),
        named(name),
    );
}

proof fn lemma_families_push(elements: Seq<Element>, e: Element)
    ensures
        families(elements.push(e)) == families(elements) + family(e),
    decreases elements.len(),
{
    if elements.len() == 0 {
        assert(elements.push(e).drop_first() =~= elements);
        assert(elements.push(e)[0] == e);
        assert(families(elements.push(e)) =~= families(elements) + family(e));
    } else {
        lemma_families_push(elements.drop_first(), e);
        assert(elements.push(e).drop_first() =~= elements.drop_first().push(e));
        assert(families(elements.push(e)) =~= families(elements) + family(e));
    }
}

/// The elements with a name grow, at the end, by those of a child that is added.
pub proof fn lemma_namesakes_push(elements: Seq<Element>, e: Element, name: Seq<char>)
    ensures
        namesakes_among(elements.push(e), name) == namesakes_among(elements, name) + namesakes(
            e,
            name,
        ),
        elements.len() == 0 ==> namesakes_among(elements, name) == Seq::<Element>::empty(),
{
    reveal(namesakes);
    reveal(namesakes_among);
    lemma_families_push(elements, e);
    Seq::filter_distributes_over_add(families(elements), family(e), named(name));
    if elements.len() == 0 {
        assert(families(elements) =~= Seq::<Element>::empty());
    }
}

proof fn lemma_namesakes_end(elements: Seq<Element>, name: Seq<char>)
    ensures
        namesakes_among(elements.skip(elements.len() as int), name) == Seq::<Element>::empty(),
{
    reveal(namesakes_among);
    assert(families(elements.skip(elements.len() as int)) =~= Seq::<Element>::empty());
}

/// The first element with a name: `element` itself, or one inside it.
pub fn first_descendant<'a>(element: &'a XmlElement, name: &str) -> (found: Option<&'a XmlElement>)
    ensures
        node_view(found) == first_namesake(element@, name@),
    decreases element,
{
    proof {
        lemma_namesakes(element@, name@);
    }
    if local_name_eq_ignore_case(element.name.as_str(), name) {
        return Some(element);
    }
    let ghost elements = element@.children;
    assert(elements.skip(0) =~= elements);
    for i in 0..element.children.len()
        invariant
            elements == elements_view(element.children@),
            namesakes(element@, name@) == namesakes_among(elements.skip(i as int), name@),
    {
        proof {
            lemma_elements_view_at(element.children@, i as int);
            lemma_namesakes_skip(elements, i as int, name@);
        }
        let found: Option<&'a XmlElement> = first_descendant(&element.children[i], name);
        if found.is_some() {
            assert(namesakes(element@, name@)[0] == namesakes(elements[i as int], name@)[0]);
            return found;
        }
        assert(namesakes(elements[i as int], name@) =~= Seq::<Element>::empty());
    }
    proof {
        lemma_namesakes_end(elements, name@);
    }
    None
}

/// `n`, or the largest `u32` where `n` is larger.
pub open spec fn clamped(n: nat) -> u32 {
    if n > u32::MAX {
        u32::MAX
    } else {
        n as u32
    }
}

/// How many elements have a name: `element` itself, and those inside it.
pub fn descendant_count(element: &XmlElement, name: &str) -> (count: u32)
    ensures
        count == clamped(namesakes(element@, name@).len()),
    decreases element,
{
    proof {
        lemma_namesakes(element@, name@);
    }
    let mut count: u32 = if local_name_eq_ignore_case(element.name.as_str(), name) {
        1
    } else {
        0
    };
    let ghost elements = element@.children;
    assert(elements.skip(0) =~= elements);
    let ghost mut counted: nat = count as nat;
    for i in 0..element.children.len()
        invariant
            elements == elements_view(element.children@),
            namesakes(element@, name@).len() == counted + namesakes_among(
                elements.skip(i as int),
                name@,
            ).len(),
            count == clamped(counted),
    {
        proof {
            lemma_elements_view_at(element.children@, i as int);
            lemma_namesakes_skip(elements, i as int, name@);
        }
        count = count.saturating_add(descendant_count(&element.children[i], name));
        proof {
            counted = counted + namesakes(elements[i as int], name@).len();
        }
    }
    proof {
        lemma_namesakes_end(elements, name@);
    }
    count
}

/// The text of an element that has a name, and of no other.
pub open spec fn named_text(name: Seq<char>) -> spec_fn(Element) -> Option<Seq<char>> {
    |e: Element|
        if names_ignore_case(e.name, name) {
            non_blank(e.text)
        } else {
            None
        }
}

/// The texts of the elements that have a name, without the blank ones.
pub open spec fn named_texts(elements: Seq<Element>, name: Seq<char>) -> Seq<Seq<char>> {
    elements.filter_map(named_text(name))
}

/// The first text under the first of the names that has one.
pub open spec fn text_by_names(elements: Seq<Element>, candidates: Seq<Seq<char>>) -> Option<
    Seq<char>,
>
    decreases candidates.len(),
{
    if candidates.len() == 0 {
        None
    } else if named_texts(elements, candidates[0]).len() > 0 {
        Some(named_texts(elements, candidates[0])[0])
    } else {
        text_by_names(elements, candidates.drop_first())
    }
}

proof fn lemma_named_texts_prefix(elements: Seq<Element>, name: Seq<char>, n: int)
    requires
        0 <= n <= elements.len(),
    ensures
        named_texts(elements.take(n), name).is_prefix_of(named_texts(elements, name)),
    decreases elements.len() - n,
{
    if n < elements.len() {
        elements.lemma_filter_map_take_succ(named_text(name), n);
        lemma_named_texts_prefix(elements, name, n + 1);
    } else {
        assert(elements.take(n) =~= elements);
    }
}

fn first_named_text(element: &XmlElement, name: &str) -> (text: Option<String>)
    ensures
        text_view(text) == (if named_texts(element@.children, name@).len() > 0 {
            Some(named_texts(element@.children, name@)[0])
        } else {
            None
        }),
{
    let ghost elements = element@.children;
    for i in 0..element.children.len()
        invariant
            elements == elements_view(element.children@),
            named_texts(elements.take(i as int), name@).len() == 0,
    {
        let child: &XmlElement = &element.children[i];
        proof {
            elements.lemma_filter_map_take_succ(named_text(name@), i as int);
            lemma_elements_view_at(element.children@, i as int);
        }
        if local_name_eq_ignore_case(child.name.as_str(), name) {
            let text: Option<String> = non_empty_owned_text(child.get_text());
            if text.is_some() {
                proof {
                    lemma_named_texts_prefix(elements, name@, i + 1);
                    let head = named_texts(elements.take(i + 1), name@);
                    assert(head[0] == text->0@);
                    assert(named_texts(elements, name@)[0] == head[0]);
                }
                return text;
            }
        }
    }
    assert(elements.take(elements.len() as int) =~= elements);
    None
}

/// The first text of the children under the first of `candidates` that has one
/// which is not blank.
pub fn child_string(element: &XmlElement, candidates: &[&str]) -> (text: Option<String>)
    ensures
        text_view(text) == text_by_names(element@.children, strs_view(candidates@)),
{
    let ghost all = strs_view(candidates@);
    assert(all.skip(0) =~= all);
    for i in 0..candidates.len()
        invariant
            all == strs_view(candidates@),
            text_by_names(element@.children, all) == text_by_names(
                element@.children,
                all.skip(i as int),
            ),
    {
        proof {
            assert(all.skip(i as int)[0] == candidates@[i as int]@);
            assert(all.skip(i as int).drop_first() =~= all.skip(i + 1));
        }
        let text: Option<String> = first_named_text(element, candidates[i]);
        if text.is_some() {
            return text;
        }
    }
    None
}

/// The number up to `max` that a text is read as, where there is one.
pub open spec fn number_in(text: Option<Seq<char>>, max: nat) -> Option<nat> {
    match text {
        Some(t) => parse_unsigned(t, max),
        None => None,
    }
}

fn child_unsigned(element: &XmlElement, candidates: &[&str], max: u64) -> (value: Option<u64>)
    ensures
        match value {
            Some(v) => number_in(
                text_by_names(element@.children, strs_view(candidates@)),
                max as nat,
            ) == Some(v as nat) && v <= max,
            None => number_in(
                text_by_names(element@.children, strs_view(candidates@)),
                max as nat,
            ) is None,
        },
{
    match child_string(element, candidates) {
        Some(text) => read_unsigned(text.as_str(), max),
        None => None,
    }
}

/// A number as it is held in a `u8`.
pub open spec fn as_u8(value: Option<nat>) -> Option<u8> {
    match value {
        Some(v) => Some(v as u8),
        None => None,
    }
}

/// A number as it is held in a `u32`.
pub open spec fn as_u32(value: Option<nat>) -> Option<u32> {
    match value {
        Some(v) => Some(v as u32),
        None => None,
    }
}

/// A number as it is held in a `u64`.
pub open spec fn as_u64(value: Option<nat>) -> Option<u64> {
    match value {
        Some(v) => Some(v as u64),
        None => None,
    }
}

/// The `u8` under the first of some names.
pub open spec fn u8_by_names(elements: Seq<Element>, candidates: Seq<Seq<char>>) -> Option<u8> {
    as_u8(number_in(text_by_names(elements, candidates), u8::MAX as nat))
}

/// The `u32` under the first of some names.
pub open spec fn u32_by_names(elements: Seq<Element>, candidates: Seq<Seq<char>>) -> Option<u32> {
    as_u32(number_in(text_by_names(elements, candidates), u32::MAX as nat))
}

/// The `u64` under the first of some names.
pub open spec fn u64_by_names(elements: Seq<Element>, candidates: Seq<Seq<char>>) -> Option<u64> {
    as_u64(number_in(text_by_names(elements, candidates), u64::MAX as nat))
}

/// The `i32` under the first of some names.
pub open spec fn i32_by_names(elements: Seq<Element>, candidates: Seq<Seq<char>>) -> Option<i32> {
    match text_by_names(elements, candidates) {
        Some(text) => match parse_signed(text, i32::MIN as int, i32::MAX as nat) {
            Some(v) => Some(v as i32),
            None => None,
        },
        None => None,
    }
}

/// The text of `child_string` read as a `u8`.
pub fn child_u8(element: &XmlElement, candidates: &[&str]) -> (value: Option<u8>)
    ensures
        value == u8_by_names(element@.children, strs_view(candidates@)),
{
    match child_unsigned(element, candidates, 0xff) {
        Some(v) => Some(v as u8),
        None => None,
    }
}

/// The text of `child_string` read as a `u32`.
pub fn child_u32(element: &XmlElement, candidates: &[&str]) -> (value: Option<u32>)
    ensures
        value == u32_by_names(element@.children, strs_view(candidates@)),
{
    match child_unsigned(element, candidates, 0xffff_ffff) {
        Some(v) => Some(v as u32),
        None => None,
    }
}

/// The text of `child_string` read as a `u64`.
pub fn child_u64(element: &XmlElement, candidates: &[&str]) -> (value: Option<u64>)
    ensures
        value == u64_by_names(element@.children, strs_view(candidates@)),
{
    child_unsigned(element, candidates, 0xffff_ffff_ffff_ffff)
}

/// The text of `child_string` read as an `i32`.
pub fn child_i32(element: &XmlElement, candidates: &[&str]) -> (value: Option<i32>)
    ensures
        value == i32_by_names(element@.children, strs_view(candidates@)),
{
    match child_string(element, candidates) {
        Some(text) => read_i32(text.as_str()),
        None => None,
    }
}

} // verus!
