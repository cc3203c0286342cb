//! Class-list manipulation: the pure part of the element runtime's class
//! handling. The host stores classes as one string; the caller splits it
//! into names, manipulates the list here, and writes it back.

use vstd::prelude::*;
use crate::markup::strings_model;
use crate::text::str_eq;

verus! {

/// Whether the class list contains the name.
pub open spec fn spec_has_class(classes: Seq<Seq<char>>, name: Seq<char>) -> bool {
    exists|i: int| 0 <= i < classes.len() && classes[i] == name
}

/// The class list without every occurrence of the name, order kept.
pub open spec fn spec_without_class(classes: Seq<Seq<char>>, name: Seq<char>) -> Seq<Seq<char>>
    decreases classes.len(),
{
    if classes.len() == 0 {
        Seq::empty()
    } else if classes.last() == name {
        spec_without_class(classes.drop_last(), name)
    } else {
        spec_without_class(classes.drop_last(), name).push(classes.last())
    }
}

/// Tests whether a class name is in the list.
pub fn has_class(classes: &Vec<String>, name: &str) -> (r: bool)
    ensures
        r == spec_has_class(strings_model(classes@), name@),
{
    let ghost models = strings_model(classes@);
    let mut i: usize = 0;
    while i < classes.len()
        invariant
            i <= classes.len(),
            models == strings_model(classes@),
            forall|k: int| 0 <= k < i ==> models[k] != name@,
        decreases classes.len() - i,
    {
        if str_eq(classes[i].as_str(), name) {
            proof {
                assert(models[i as int] == name@);
            }
            return true;
        }
        i = i + 1;
    }
    false
}

/// Adds a class name to the list unless it is already present.
pub fn add_class(classes: &mut Vec<String>, name: &str)
    ensures
        strings_model(final(classes)@) == if spec_has_class(strings_model(old(classes)@), name@) {
            strings_model(old(classes)@)
        } else {
            strings_model(old(classes)@).push(name@)
        },
{
    if !has_class(classes, name) {
        classes.push(name.to_owned());
        proof {
            assert(strings_model(classes@) =~= strings_model(
                old(classes)@,
            ).push(name@));
        }
    }
}

/// Removes every occurrence of a class name from the list, keeping the
/// order of the rest.
pub fn remove_class(classes: &mut Vec<String>, name: &str)
    ensures
        strings_model(final(classes)@) == spec_without_class(strings_model(old(classes)@), name@),
{
    let ghost models = strings_model(old(classes)@);
    let mut out: Vec<String> = Vec::new();
    let mut i: usize = 0;
    while i < classes.len()
        invariant
            i <= classes.len(),
            models == strings_model(classes@),
            classes@ == old(classes)@,
            strings_model(out@) == spec_without_class(models.take(i as int), name@),
        decreases classes.len() - i,
    {
        proof {
            assert(models.take(i + 1 as int).drop_last() =~= models.take(i as int));
            assert(models.take(i + 1 as int).last() == models[i as int]);
        }
        if !str_eq(classes[i].as_str(), name) {
            out.push(classes[i].clone());
            proof {
                assert(strings_model(out@) =~= spec_without_class(
                    models.take(i as int),
                    name@,
                ).push(models[i as int]));
            }
        }
        i = i + 1;
    }
    proof {
        assert(models.take(classes@.len() as int) =~= models);
    }
    *classes = out;
}

/// Toggles a class name: removes every occurrence when present, adds it
/// when absent.
pub fn toggle_class(classes: &mut Vec<String>, name: &str)
    ensures
        strings_model(final(classes)@) == if spec_has_class(strings_model(old(classes)@), name@) {
            spec_without_class(strings_model(old(classes)@), name@)
        } else {
            strings_model(old(classes)@).push(name@)
        },
{
    if has_class(classes, name) {
        remove_class(classes, name);
    } else {
        add_class(classes, name);
    }
}

/// Removing a class leaves a list in which it no longer occurs; every other
/// name keeps its membership.
pub proof fn lemma_remove_class_membership(classes: Seq<Seq<char>>, name: Seq<char>, other: Seq<char>)
    ensures
        !spec_has_class(spec_without_class(classes, name), name),
        other != name ==> (spec_has_class(spec_without_class(classes, name), other)
            == spec_has_class(classes, other)),
    decreases classes.len(),
{
    if classes.len() > 0 {
        lemma_remove_class_membership(classes.drop_last(), name, other);
        let rest = spec_without_class(classes.drop_last(), name);
        if classes.last() != name {
            assert(forall|i: int|
                0 <= i < rest.len() ==> rest.push(classes.last())[i] == rest[i]);
            if other != name && spec_has_class(classes, other) {
                let w = choose|i: int| 0 <= i < classes.len() && classes[i] == other;
                if w < classes.len() - 1 {
                    assert(classes.drop_last()[w] == other);
                } else {
                    assert(rest.push(classes.last()).last() == other);
                }
            }
        } else {
            if other != name && spec_has_class(classes, other) {
                let w = choose|i: int| 0 <= i < classes.len() && classes[i] == other;
                assert(classes.drop_last()[w] == other);
            }
        }
        if other != name && spec_has_class(classes.drop_last(), other) {
            let w = choose|i: int|
                0 <= i < classes.drop_last().len() && classes.drop_last()[i] == other;
            assert(classes[w] == other);
        }
    }
}

} // verus!
