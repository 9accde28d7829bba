//! Collections of records that are found by their name.

use vstd::prelude::*;
use crate::text::{chars_of, contains_chars, contains_seq, lowercase_of, same_chars, to_lowercase};

verus! {

/// A record that carries the name it is looked up by.
pub trait Named: Sized {
    /// The record's name.
    spec fn name_spec(&self) -> Seq<char>;

    /// The record with the name `name` in place of its own.
    spec fn renamed(self, name: String) -> Self;

    /// The record's name.
    fn name_str(&self) -> (name: &str)
        ensures
            name@ == self.name_spec(),
    ;

    /// The record with the name `name` in place of its own.
    fn with_name(self, name: String) -> (out: Self)
        ensures
            out == self.renamed(name),
    ;

    /// A renamed record has the name it was given.
    proof fn lemma_renamed(self, name: String)
        ensures
            self.renamed(name).name_spec() == name@,
    ;
}

/// How many records stand in `entries` before the first whose name is exactly
/// `name`: the index of that record, or the length of `entries` if no record
/// has the name.
pub open spec fn first_index<T: Named>(entries: Seq<T>, name: Seq<char>) -> int
    decreases entries.len(),
{
    if entries.len() == 0 {
        0
    } else if entries[0].name_spec() == name {
        0
    } else {
        1 + first_index(entries.drop_first(), name)
    }
}

/// The first record of `entries` whose name is exactly `name`.
pub open spec fn lookup<T: Named>(entries: Seq<T>, name: Seq<char>) -> Option<T> {
    let i = first_index(entries, name);
    if i < entries.len() {
        Some(entries[i])
    } else {
        None
    }
}

/// Whether some record of `entries` has the name `name`.
pub open spec fn has_name<T: Named>(entries: Seq<T>, name: Seq<char>) -> bool {
    exists|i: int| 0 <= i < entries.len() && (#[trigger] entries[i]).name_spec() == name
}

/// Whether no two records of `entries` have the same name.
pub open spec fn names_unique<T: Named>(entries: Seq<T>) -> bool {
    forall|i: int, j: int|
        0 <= i < j < entries.len() ==> (#[trigger] entries[i]).name_spec() != (
        #[trigger] entries[j]).name_spec()
}

/// Whether a record named `name` answers the search for `query`: the name
/// holds the query, both taken in lower case.
pub open spec fn matches_query(name: Seq<char>, query: Seq<char>) -> bool {
    contains_seq(lowercase_of(name), lowercase_of(query))
}

/// The test that picks the records that answer the search for `query`.
pub open spec fn answering<T: Named>(query: Seq<char>) -> spec_fn(T) -> bool {
    |e: T| matches_query(e.name_spec(), query)
}

/// The records that references point to.
pub open spec fn targets<T>(refs: Seq<&T>) -> Seq<T> {
    Seq::new(refs.len(), |i: int| *refs[i])
}

/// The first index is in range exactly when a record has the name; the
/// record there has the name, and no record before it has.
pub proof fn lemma_first_index<T: Named>(entries: Seq<T>, name: Seq<char>)
    ensures
        0 <= first_index(entries, name) <= entries.len(),
        first_index(entries, name) < entries.len() <==> has_name(entries, name),
        first_index(entries, name) < entries.len() ==> entries[first_index(
            entries,
            name,
        )].name_spec() == name,
        forall|j: int|
            0 <= j < first_index(entries, name) ==> (#[trigger] entries[j]).name_spec() != name,
    decreases entries.len(),
{
    if entries.len() == 0 {
    } else if entries[0].name_spec() == name {
    } else {
        let rest = entries.drop_first();
        lemma_first_index(rest, name);
        let k = first_index(rest, name);
        if k < rest.len() {
            assert(entries[k + 1] == rest[k]);
        }
        if has_name(entries, name) {
            let i = choose|i: int|
                0 <= i < entries.len() && (#[trigger] entries[i]).name_spec() == name;
            assert(rest[i - 1] == entries[i]);
        }
        assert forall|j: int| 0 <= j < 1 + k implies (#[trigger] entries[j]).name_spec()
            != name by {
            if j > 0 {
                assert(rest[j - 1] == entries[j]);
            }
        }
    }
}

/// A lookup finds a record exactly when one has the name, and what it finds
/// has the name.
pub proof fn lemma_lookup_finds_name<T: Named>(entries: Seq<T>, name: Seq<char>)
    ensures
        lookup(entries, name) is Some <==> has_name(entries, name),
        lookup(entries, name) matches Some(found) ==> found.name_spec() == name
            && entries.contains(found),
{
    lemma_first_index(entries, name);
}

/// The index of the first record of `entries` whose name is exactly `name`.
pub fn find_named<T: Named>(entries: &Vec<T>, name: &str) -> (found: Option<usize>)
    ensures
        match found {
            Some(i) => i < entries.len() && i == first_index(entries@, name@),
            None => first_index(entries@, name@) == entries.len(),
        },
{
    let wanted = chars_of(name);
    let mut i: usize = 0;
    proof {
        assert(entries@.skip(0) == entries@);
    }
    while i < entries.len()
        invariant
            i <= entries.len(),
            wanted@ == name@,
            first_index(entries@, name@) == i + first_index(entries@.skip(i as int), name@),
        decreases entries.len() - i,
    {
        let candidate = chars_of(entries[i].name_str());
        proof {
            assert(entries@.skip(i as int)[0] == entries@[i as int]);
            assert(entries@.skip(i as int).drop_first() == entries@.skip(i + 1));
        }
        if same_chars(&candidate, &wanted) {
            return Some(i);
        }
        i += 1;
    }
    None
}

/// The records of `entries` that answer the search for `query`, in the order
/// in which `entries` holds them.
pub fn search_named<'a, T: Named>(entries: &'a Vec<T>, query: &str) -> (found: Vec<&'a T>)
    ensures
        targets(found@) == entries@.filter(answering(query@)),
{
    let wanted = chars_of(to_lowercase(query).as_str());
    let ghost pred = answering::<T>(query@);
    let mut found: Vec<&T> = Vec::new();
    let mut i: usize = 0;
    proof {
        reveal(Seq::filter);
        assert(entries@.take(0).len() == 0);
        assert(targets(found@) == entries@.take(0).filter(pred));
    }
    while i < entries.len()
        invariant
            i <= entries.len(),
            wanted@ == lowercase_of(query@),
            pred == answering::<T>(query@),
            targets(found@) == entries@.take(i as int).filter(pred),
        decreases entries.len() - i,
    {
        let name = chars_of(to_lowercase(entries[i].name_str()).as_str());
        let ghost before = found@;
        proof {
            reveal(Seq::filter);
            assert(entries@.take(i + 1).drop_last() == entries@.take(i as int));
            assert(entries@.take(i + 1).last() == entries@[i as int]);
        }
        if contains_chars(&name, &wanted) {
            found.push(&entries[i]);
            proof {
                assert(targets(found@) == targets(before).push(entries@[i as int]));
            }
        }
        i += 1;
    }
    proof {
        assert(entries@.take(entries.len() as int) == entries@);
    }
    found
}

/// `entries` with `entry` put under its name: in the place of the record that
/// had the name, or at the end if none had it.
pub open spec fn with_entry<T: Named>(entries: Seq<T>, entry: T) -> Seq<T> {
    let i = first_index(entries, entry.name_spec());
    if i < entries.len() {
        entries.update(i, entry)
    } else {
        entries.push(entry)
    }
}

/// The records that a document's pairs of key and record describe: each
/// record gets its key as its name, and a later pair replaces an earlier one
/// with the same key.
pub open spec fn entries_of<T: Named>(pairs: Seq<(String, T)>) -> Seq<T>
    decreases pairs.len(),
{
    if pairs.len() == 0 {
        Seq::empty()
    } else {
        let (key, record) = pairs.last();
        with_entry(entries_of(pairs.drop_last()), record.renamed(key))
    }
}

/// Putting a record under its name keeps the names distinct.
pub proof fn lemma_with_entry_unique<T: Named>(entries: Seq<T>, entry: T)
    requires
        names_unique(entries),
    ensures
        names_unique(with_entry(entries, entry)),
{
    lemma_first_index(entries, entry.name_spec());
    let i = first_index(entries, entry.name_spec());
    let after = with_entry(entries, entry);
    assert forall|a: int, b: int| 0 <= a < b < after.len() implies (#[trigger] after[a]).name_spec()
        != (#[trigger] after[b]).name_spec() by {
        if i < entries.len() {
            if a == i {
                assert(entries[i].name_spec() != entries[b].name_spec());
            } else if b == i {
                assert(entries[a].name_spec() != entries[i].name_spec());
            } else {
                assert(entries[a].name_spec() != entries[b].name_spec());
            }
        } else {
            if b == entries.len() {
                assert(entries[a].name_spec() != entry.name_spec());
            } else {
                assert(entries[a].name_spec() != entries[b].name_spec());
            }
        }
    }
}

/// No two of the records that a document describes have the same name.
pub proof fn lemma_entries_of_unique<T: Named>(pairs: Seq<(String, T)>)
    ensures
        names_unique(entries_of(pairs)),
    decreases pairs.len(),
{
    if pairs.len() > 0 {
        lemma_entries_of_unique(pairs.drop_last());
        let (key, record) = pairs.last();
        lemma_with_entry_unique(entries_of(pairs.drop_last()), record.renamed(key));
    }
}

/// The records that the pairs of key and record `pairs` describe.
pub fn collect_named<T: Named>(pairs: Vec<(String, T)>) -> (entries: Vec<T>)
    ensures
        entries@ == entries_of(pairs@),
        names_unique(entries@),
{
    let mut entries: Vec<T> = Vec::new();
    let ghost all = pairs@;
    for pair in it: pairs
        invariant
            it.seq() == all,
            entries@ == entries_of(all.take(it.index() as int)),
    {
        let (key, record) = pair;
        proof {
            assert(all.take(it.index() + 1).drop_last() == all.take(it.index() as int));
            record.lemma_renamed(key);
        }
        let entry = record.with_name(key);
        match find_named(&entries, entry.name_str()) {
            Some(i) => {
                entries.set(i, entry);
            },
            None => {
                entries.push(entry);
            },
        }
    }
    proof {
        assert(all.take(all.len() as int) == all);
        lemma_entries_of_unique(all);
    }
    entries
}

} // verus!
