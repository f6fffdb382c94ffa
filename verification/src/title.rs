//! The title of a conversation's row: the name of the person one talks to.
//!
//! A conversation knows its recipients only by their keys. The names behind
//! the keys come from the identity service, so the title is found in two
//! steps with a round of lookups between them: pick the recipients to look
//! up, then pick the name to show from what the lookups found.

use vstd::prelude::*;

verus! {

/// The recipients that are looked up for the title: all of the
/// conversation's recipients but oneself, in their order.
pub open spec fn others(recipients: Seq<Seq<char>>, own: Seq<char>) -> Seq<Seq<char>> {
    recipients.filter(|key: Seq<char>| key != own)
}

/// The names that a round of lookups found, in the order of the lookups. A
/// lookup that failed contributes nothing.
pub open spec fn names_found(found: Seq<Option<Seq<Seq<char>>>>) -> Seq<Seq<char>>
    decreases found.len(),
{
    if found.len() == 0 {
        Seq::empty()
    } else {
        names_found(found.drop_last()) + match found.last() {
            Some(names) => names,
            None => Seq::empty(),
        }
    }
}

/// The title that a round of lookups gives: the last name found, or the
/// empty title if none was found.
pub open spec fn title_of(found: Seq<Option<Seq<Seq<char>>>>) -> Seq<char> {
    let names = names_found(found);
    if names.len() > 0 {
        names.last()
    } else {
        Seq::empty()
    }
}

/// Picks the recipients to look up: every key among `recipients` that is not
/// `own`.
pub fn other_recipients(recipients: &Vec<String>, own: &String) -> (picked: Vec<String>)
    ensures
        picked.deep_view() == others(recipients.deep_view(), own@),
{
    let mut picked: Vec<String> = Vec::new();
    let mut i: usize = 0;
    while i < recipients.len()
        invariant
            i <= recipients.len(),
            picked.deep_view() == others(recipients.deep_view().take(i as int), own@),
        decreases recipients.len() - i,
    {
        proof {
            reveal(Seq::filter);
            let seen = recipients.deep_view().take(i as int);
            assert(recipients.deep_view().take(i + 1).drop_last() =~= seen);
        }
        if recipients[i] != *own {
            picked.push(recipients[i].clone());
        }
        i = i + 1;
    }
    assert(recipients.deep_view().take(recipients.len() as int) =~= recipients.deep_view());
    picked
}

/// Picks the title from the answers of the lookups, one answer for each
/// recipient looked up: the names of the identities found, or `None` where
/// the lookup failed.
pub fn title(found: &Vec<Option<Vec<String>>>) -> (name: String)
    ensures
        name@ == title_of(found.deep_view()),
{
    let mut i: usize = found.len();
    assert(found.deep_view().take(found.len() as int) =~= found.deep_view());
    while i > 0
        invariant
            i <= found.len(),
            names_found(found.deep_view()) == names_found(found.deep_view().take(i as int)),
        decreases i,
    {
        i = i - 1;
        proof {
            let upto = found.deep_view().take(i + 1);
            assert(upto.drop_last() =~= found.deep_view().take(i as int));
        }
        match &found[i] {
            Some(names) => {
                if names.len() > 0 {
                    return names[names.len() - 1].clone();
                }
            },
            None => {},
        }
    }
    String::new()
}

/// Whether a row is drawn as a placeholder: as long as it has no title.
pub fn shows_skeleton(title: &String) -> (yes: bool)
    ensures
        yes == (title@.len() == 0),
{
    title.as_str().is_empty()
}

} // verus!
