//! Scraping suggestion candidates out of the provider's markup response:
//! the `data` attribute of every element tagged `suggestion`, in document
//! order.

use vstd::prelude::*;
use vstd::string::*;
use crate::strcmp::str_eq;
use crate::normalize::str_views;

verus! {

/// One node of the parsed response: its tag name (empty for anything but an
/// element) and its attributes as name-value pairs, in document order.
pub struct XmlElement {
    pub tag: String,
    pub attrs: Vec<(String, String)>,
}

/// The view of an attribute list.
pub open spec fn attr_views(s: Seq<(String, String)>) -> Seq<(Seq<char>, Seq<char>)> {
    s.map_values(|p: (String, String)| (p.0@, p.1@))
}

/// The view of one element.
pub open spec fn elem_view(e: XmlElement) -> (Seq<char>, Seq<(Seq<char>, Seq<char>)>) {
    (e.tag@, attr_views(e.attrs@))
}

/// The views of an element list.
pub open spec fn elem_views(s: Seq<XmlElement>) -> Seq<(Seq<char>, Seq<(Seq<char>, Seq<char>)>)> {
    s.map_values(|e: XmlElement| elem_view(e))
}

/// What parsing the markup `raw` yields: `None` when the document is
/// malformed, otherwise every node of the document in document order, each
/// as its tag name with its attributes.
pub uninterp spec fn xml_elements(raw: Seq<char>) -> Option<
    Seq<(Seq<char>, Seq<(Seq<char>, Seq<char>)>)>,
>;

/// Relies on roxmltree: `Document::parse` accepts or rejects a document by
/// its text alone; `descendants` walks every node in document order;
/// `tag_name().name()` is an element's local name and empty for other kinds
/// of node; `attributes` lists each attribute's `name()` and `value()` in
/// document order.
#[verifier::external_body]
fn parse_elements(raw: &str) -> (r: Option<Vec<XmlElement>>)
    ensures
        match r {
            Some(elems) => xml_elements(raw@) == Some(elem_views(elems@)),
            None => xml_elements(raw@) is None,
        },
{
    match roxmltree::Document::parse(raw) {
        Ok(doc) => Some(
            doc.descendants().map(
                |n| XmlElement {
                    tag: n.tag_name().name().to_string(),
                    attrs: n.attributes().map(
                        |a| (a.name().to_string(), a.value().to_string()),
                    ).collect(),
                },
            ).collect(),
        ),
        Err(_) => None,
    }
}

/// The view of an optional string.
pub open spec fn opt_view(o: Option<String>) -> Option<Seq<char>> {
    match o {
        Some(s) => Some(s@),
        None => None,
    }
}

/// The value of the first attribute named `name`, if any.
pub open spec fn spec_attr_lookup(
    attrs: Seq<(Seq<char>, Seq<char>)>,
    name: Seq<char>,
) -> Option<Seq<char>>
    decreases attrs.len(),
{
    if attrs.len() == 0 {
        None
    } else if attrs[0].0 == name {
        Some(attrs[0].1)
    } else {
        spec_attr_lookup(attrs.drop_first(), name)
    }
}

/// The suggestion texts among `elems`: the `data` attribute of every element
/// tagged `suggestion`, in document order; a `suggestion` element without
/// the attribute contributes nothing.
pub open spec fn spec_extract(
    elems: Seq<(Seq<char>, Seq<(Seq<char>, Seq<char>)>)>,
) -> Seq<Seq<char>>
    decreases elems.len(),
{
    if elems.len() == 0 {
        Seq::empty()
    } else {
        let rest = spec_extract(elems.drop_first());
        if elems[0].0 == "suggestion"@ {
            match spec_attr_lookup(elems[0].1, "data"@) {
                Some(v) => seq![v] + rest,
                None => rest,
            }
        } else {
            rest
        }
    }
}

/// The candidates a raw response yields; a malformed one yields none.
pub open spec fn spec_suggestions(raw: Seq<char>) -> Seq<Seq<char>> {
    match xml_elements(raw) {
        Some(elems) => spec_extract(elems),
        None => Seq::empty(),
    }
}

/// Looks up the first attribute named `name`, cloning its value.
fn attr_lookup(attrs: &Vec<(String, String)>, name: &str) -> (r: Option<String>)
    ensures
        opt_view(r) == spec_attr_lookup(attr_views(attrs@), name@),
{
    let ghost av = attr_views(attrs@);
    let mut i: usize = 0;
    proof {
        assert(av.skip(0) =~= av);
    }
    while i < attrs.len()
        invariant
            av == attr_views(attrs@),
            i <= attrs@.len(),
            spec_attr_lookup(av.skip(i as int), name@) == spec_attr_lookup(av, name@),
        decreases attrs@.len() - i,
    {
        proof {
            assert(av[i as int] == (attrs@[i as int].0@, attrs@[i as int].1@));
            assert(av.skip(i as int)[0] == av[i as int]);
        }
        if str_eq(attrs[i].0.as_str(), name) {
            return Some(attrs[i].1.clone());
        }
        proof {
            assert(av.skip(i as int).drop_first() =~= av.skip(i as int + 1));
        }
        i = i + 1;
    }
    None
}

/// Extracts the suggestion candidates from a raw response: the `data`
/// attribute of every `suggestion` element, in document order. A malformed
/// document yields an empty list — parsing never fails the search.
pub fn parse_suggestions(raw: &str) -> (r: Vec<String>)
    ensures
        str_views(r@) == spec_suggestions(raw@),
{
    let elems: Vec<XmlElement> = match parse_elements(raw) {
        Some(e) => e,
        None => {
            let empty: Vec<String> = Vec::new();
            proof {
                assert(str_views(empty@) =~= spec_suggestions(raw@));
            }
            return empty;
        },
    };
    let ghost ev = elem_views(elems@);
    let mut out: Vec<String> = Vec::new();
    let mut i: usize = 0;
    proof {
        assert(ev.skip(0) =~= ev);
        assert(str_views(out@) =~= Seq::<Seq<char>>::empty());
    }
    while i < elems.len()
        invariant
            ev == elem_views(elems@),
            spec_suggestions(raw@) == spec_extract(ev),
            i <= elems@.len(),
            str_views(out@) + spec_extract(ev.skip(i as int)) == spec_extract(ev),
        decreases elems@.len() - i,
    {
        proof {
            assert(ev[i as int] == elem_view(elems@[i as int]));
            assert(ev.skip(i as int)[0] == ev[i as int]);
            assert(ev.skip(i as int).drop_first() =~= ev.skip(i as int + 1));
        }
        if str_eq(elems[i].tag.as_str(), "suggestion") {
            let found = attr_lookup(&elems[i].attrs, "data");
            if let Some(v) = found {
                let ghost pre = str_views(out@);
                out.push(v);
                proof {
                    assert(str_views(out@) =~= pre.push(v@));
                    assert(spec_extract(ev.skip(i as int)) == seq![v@] + spec_extract(
                        ev.skip(i as int + 1),
                    ));
                    assert(pre.push(v@) + spec_extract(ev.skip(i as int + 1)) =~= pre + (seq![v@]
                        + spec_extract(ev.skip(i as int + 1))));
                }
            }
        }
        i = i + 1;
    }
    proof {
        assert(ev.skip(elems@.len() as int) =~= Seq::<(
            Seq<char>,
            Seq<(Seq<char>, Seq<char>)>,
        )>::empty());
        assert(str_views(out@) + Seq::<Seq<char>>::empty() =~= str_views(out@));
    }
    out
}

} // verus!
