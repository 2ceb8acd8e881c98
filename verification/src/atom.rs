//! An Atom feed, as far as a podcast is made from it.

use crate::date::Date;
use crate::text::same_text;
use vstd::prelude::*;

verus! {

/// An element below an extension element: its text and its attributes,
/// each a name with its value.
pub struct Element {
    pub value: Option<String>,
    pub attrs: Vec<(String, String)>,
}

/// An extension element of an entry: its text, and the elements below it
/// by their names.
pub struct Extension {
    pub value: Option<String>,
    pub children: Vec<(String, Vec<Element>)>,
}

/// One entry of a feed. The extension elements are listed by their
/// namespace, and below it by their name. Where a namespace or, within one
/// namespace, a name is listed more than once, the first listing counts.
pub struct Entry {
    pub id: String,
    pub title: String,
    pub updated: Date,
    /// The names of the authors.
    pub authors: Vec<String>,
    /// The addresses that the links point to.
    pub links: Vec<String>,
    pub extensions: Vec<(String, Vec<(String, Vec<Extension>)>)>,
}

/// A feed.
pub struct Feed {
    pub title: String,
    pub updated: Date,
    pub subtitle: Option<String>,
    pub lang: Option<String>,
    /// The names of the authors.
    pub authors: Vec<String>,
    /// The addresses that the links point to.
    pub links: Vec<String>,
    pub entries: Vec<Entry>,
}

/// What is listed under `name`, the first where there are several.
pub open spec fn listed<T>(items: Seq<(String, T)>, name: Seq<char>) -> Option<T>
    decreases items.len(),
{
    if items.len() == 0 {
        None
    } else if items[0].0@ == name {
        Some(items[0].1)
    } else {
        listed(items.drop_first(), name)
    }
}

/// Looks up what is listed under `name`.
pub fn lookup<'a, T>(items: &'a Vec<(String, T)>, name: &str) -> (r: Option<&'a T>)
    ensures
        match r {
            Some(found) => listed(items@, name@) == Some(*found),
            None => listed(items@, name@) is None,
        },
{
    let mut i: usize = 0;
    assert(items@.skip(0) == items@);
    while i < items.len()
        invariant
            i <= items.len(),
            listed(items@, name@) == listed(items@.skip(i as int), name@),
        decreases items.len() - i,
    {
        assert(items@.skip(i as int)[0] == items@[i as int]);
        assert(items@.skip(i as int).drop_first() == items@.skip(i + 1));
        if same_text(items[i].0.as_str(), name) {
            return Some(&items[i].1);
        }
        i = i + 1;
    }
    None
}

} // verus!
