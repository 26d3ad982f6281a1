//! JSON texts of keyed quantities, read and written by `serde_json`.

use vstd::prelude::*;
use vstd::string::*;
use crate::text::found_text;
use crate::delta::{
    copy_entries, counts_of, first_at, lemma_position, position, Amounts, AmountsView, Entry,
};
use std::collections::BTreeMap;

verus! {

/// A named group of keyed quantities: one dimension of a listing, or the
/// sizes of one colour in stock.
#[derive(Debug)]
pub struct Group {
    pub name: String,
    pub entries: Vec<Entry>,
}

impl View for Group {
    type V = (Seq<char>, Seq<(Seq<char>, int)>);

    open spec fn view(&self) -> (Seq<char>, Seq<(Seq<char>, int)>) {
        (self.name@, counts_of(self.entries@))
    }
}

/// The named groups that a list stands for, in order.
pub open spec fn groups_of(groups: Seq<Group>) -> Seq<(Seq<char>, Seq<(Seq<char>, int)>)> {
    Seq::new(groups.len(), |i: int| groups[i]@)
}

/// The names of the groups, each with its index.
pub open spec fn names_of(groups: Seq<(Seq<char>, Seq<(Seq<char>, int)>)>) -> Seq<
    (Seq<char>, int),
> {
    Seq::new(groups.len(), |i: int| (groups[i].0, i))
}

/// The entries of the first group called `name`, if there is one.
pub open spec fn dimension(
    groups: Seq<(Seq<char>, Seq<(Seq<char>, int)>)>,
    name: Seq<char>,
) -> Option<Seq<(Seq<char>, int)>> {
    let at = position(names_of(groups), name);
    if 0 <= at < groups.len() {
        Some(groups[at].1)
    } else {
        None
    }
}

/// The three dimensions of a listing, where the groups hold all of them.
pub open spec fn amounts_in(groups: Seq<(Seq<char>, Seq<(Seq<char>, int)>)>) -> Option<
    AmountsView,
> {
    match (dimension(groups, "color"@), dimension(groups, "size"@), dimension(groups, "detail"@)) {
        (Some(color), Some(size), Some(detail)) => Some(AmountsView { color, size, detail }),
        _ => None,
    }
}

/// Finds the first group called `name`.
pub fn locate_group(groups: &Vec<Group>, name: &String) -> (at: usize)
    ensures
        at <= groups.len(),
        at as int == position(names_of(groups_of(groups@)), name@),
        first_at(names_of(groups_of(groups@)), name@, at as int),
{
    let ghost names = names_of(groups_of(groups@));
    let mut i: usize = 0;
    while i < groups.len()
        invariant
            i <= groups.len(),
            names == names_of(groups_of(groups@)),
            forall|j: int| 0 <= j < i ==> (#[trigger] names[j]).0 != name@,
        decreases groups.len() - i,
    {
        if groups[i].name == *name {
            proof {
                lemma_position(names, name@, i as int);
            }
            return i;
        }
        i += 1;
    }
    proof {
        lemma_position(names, name@, i as int);
    }
    i
}

/// Copies out the entries of the first group called `name`.
pub fn pick(groups: &Vec<Group>, name: &str) -> (entries: Option<Vec<Entry>>)
    ensures
        match entries {
            Some(found) => dimension(groups_of(groups@), name@) == Some(counts_of(found@)),
            None => dimension(groups_of(groups@), name@).is_none(),
        },
{
    let wanted = String::from_str(name);
    let at = locate_group(groups, &wanted);
    if at < groups.len() {
        Some(copy_entries(&groups[at].entries))
    } else {
        None
    }
}

/// Picks the three dimensions of a listing out of the groups of a payload.
pub fn amounts_of(groups: &Vec<Group>) -> (amounts: Option<Amounts>)
    ensures
        match amounts {
            Some(found) => amounts_in(groups_of(groups@)) == Some(found@),
            None => amounts_in(groups_of(groups@)).is_none(),
        },
{
    let color = pick(groups, "color");
    let size = pick(groups, "size");
    let detail = pick(groups, "detail");
    match (color, size, detail) {
        (Some(color), Some(size), Some(detail)) => Some(Amounts { color, size, detail }),
        _ => None,
    }
}

/// `serde_json::Error`: why a text was refused. It is carried through and
/// never looked into.
#[verifier::external_type_specification]
#[verifier::external_body]
pub struct ExJsonError(serde_json::Error);

/// What `serde_json` reads from `text` as an object of objects of 64-bit
/// integers: the groups by ascending name, each with its entries by
/// ascending key; `None` where it refuses the text.
pub uninterp spec fn json_counts(text: Seq<char>) -> Option<
    Seq<(Seq<char>, Seq<(Seq<char>, int)>)>,
>;

/// The pretty-printed JSON text that `serde_json` writes for an object of
/// objects of integers built from the groups in their order.
pub uninterp spec fn counts_json(groups: Seq<(Seq<char>, Seq<(Seq<char>, int)>)>) -> Seq<char>;

/// Calls `serde_json::from_str` for a map of maps of `i64`. Not proved: that
/// the groups handed out are what `json_counts` names for the text, and that
/// an error comes exactly where it names nothing.
#[verifier::external_body]
pub(crate) fn parse_counts(text: &str) -> (parsed: Result<Vec<Group>, serde_json::Error>)
    ensures
        match parsed {
            Ok(groups) => json_counts(text@) == Some(groups_of(groups@)),
            Err(_) => json_counts(text@).is_none(),
        },
{
    let read = serde_json::from_str::<BTreeMap<String, BTreeMap<String, i64>>>(text)?;
    Ok(
        read.into_iter().map(
            |(name, counts)|
                Group {
                    name,
                    entries: counts.into_iter().map(|(key, count)| Entry { key, count }).collect(),
                },
        ).collect(),
    )
}

/// Calls `serde_json::to_string_pretty` on a map of maps built from the
/// groups. Not proved: that a text is handed out, as it is for every map
/// from strings to maps from strings to integers, which `serde_json` writes
/// into memory without a step that can fail; and that the text is the one
/// that `counts_json` names for the groups.
#[verifier::external_body]
pub(crate) fn render_counts(groups: &Vec<Group>) -> (text: Result<String, serde_json::Error>)
    ensures
        text is Ok,
        text matches Ok(written) ==> written@ == counts_json(groups_of(groups@)),
{
    let map: BTreeMap<String, BTreeMap<String, i64>> = groups.iter().map(
        |group|
            (
                group.name.clone(),
                group.entries.iter().map(|entry| (entry.key.clone(), entry.count)).collect(),
            ),
    ).collect();
    serde_json::to_string_pretty(&map)
}

/// The three dimensions of a listing as the JSON text `text` gives them;
/// `None` where the text is refused or lacks a dimension.
pub open spec fn amounts_text(text: Seq<char>) -> Option<AmountsView> {
    match json_counts(text) {
        Some(groups) => amounts_in(groups),
        None => None,
    }
}

/// Reads the remaining quantities of a snapshot from their JSON text.
pub fn read_amounts(text: &str) -> (amounts: Option<Amounts>)
    ensures
        match amounts {
            Some(found) => amounts_text(text@) == Some(found@),
            None => amounts_text(text@).is_none(),
        },
{
    match parse_counts(text) {
        Ok(groups) => amounts_of(&groups),
        Err(_) => None,
    }
}

/// The JSON text of the value that the JSON Pointer `pointer` addresses in
/// the document `text`, as `serde_json` reads, finds and writes it: `None`
/// where it refuses the document, `Some(None)` where the pointer addresses
/// nothing.
pub uninterp spec fn json_at(text: Seq<char>, pointer: Seq<char>) -> Option<Option<Seq<char>>>;

/// Calls `serde_json::from_str` for a `Value`, `Value::pointer` on it, and
/// `to_string` on what that finds. Not proved: that what is handed out is
/// what `json_at` names for document and pointer.
#[verifier::external_body]
pub(crate) fn value_at(text: &str, pointer: &str) -> (found: Option<Option<String>>)
    ensures
        found_text(found) == json_at(text@, pointer@),
{
    match serde_json::from_str::<serde_json::Value>(text) {
        Ok(document) => Some(document.pointer(pointer).map(|value| value.to_string())),
        Err(_) => None,
    }
}

} // verus!
