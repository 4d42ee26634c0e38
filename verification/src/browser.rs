use vstd::prelude::*;
use crate::library::{
    lemma_text_le_transitive, lemma_text_lt_irreflexive, lemma_text_lt_total, lemma_text_lt_transitive,
    lowercase, lowercase_text, text_before, text_le, text_lt,
};

verus! {

/// A folder the browser leaves out: its name starts with a dot.
pub open spec fn is_hidden(name: Seq<char>) -> bool {
    name.len() > 0 && name[0] == '.'
}

/// The names of `names` that are not hidden, in order.
pub open spec fn visible(names: Seq<String>) -> Seq<String>
    decreases names.len(),
{
    if names.len() == 0 {
        Seq::empty()
    } else if is_hidden(names.last()@) {
        visible(names.drop_last())
    } else {
        visible(names.drop_last()).push(names.last())
    }
}

/// Where `name` goes among `sorted`: after every name whose lower-case form
/// does not come after its own.
pub open spec fn name_insertion_index(sorted: Seq<String>, name: String) -> int
    decreases sorted.len(),
{
    if sorted.len() == 0 {
        0
    } else if !text_lt(lowercase_text(name@), lowercase_text(sorted.last()@)) {
        sorted.len() as int
    } else {
        name_insertion_index(sorted.drop_last(), name)
    }
}

/// `names` ordered by their lower-case forms, equal ones in the order they
/// came in (a stable sort).
pub open spec fn sorted_by_name(names: Seq<String>) -> Seq<String>
    decreases names.len(),
{
    if names.len() == 0 {
        names
    } else {
        let sorted = sorted_by_name(names.drop_last());
        sorted.insert(name_insertion_index(sorted, names.last()), names.last())
    }
}

proof fn lemma_name_insertion_bound(sorted: Seq<String>, name: String)
    ensures
        0 <= name_insertion_index(sorted, name) <= sorted.len(),
    decreases sorted.len(),
{
    if sorted.len() > 0 {
        lemma_name_insertion_bound(sorted.drop_last(), name);
    }
}

proof fn lemma_sorted_by_name_len(names: Seq<String>)
    ensures
        sorted_by_name(names).len() == names.len(),
    decreases names.len(),
{
    if names.len() > 0 {
        lemma_sorted_by_name_len(names.drop_last());
        lemma_name_insertion_bound(sorted_by_name(names.drop_last()), names.last());
    }
}

/// The sub-folders a folder browser lists, from the names of a folder's
/// sub-folders: the hidden ones are left out and the rest ordered by their
/// names, ignoring case.
pub fn list_folders(names: Vec<String>) -> (listed: Vec<String>)
    ensures
        listed@ == sorted_by_name(visible(names@)),
{
    let ghost input = names@;
    let mut sorted: Vec<String> = Vec::new();
    let mut rest = names;
    let ghost mut done: int = 0;
    assert(sorted@ =~= sorted_by_name(visible(input.take(0))));
    while rest.len() > 0
        invariant
            0 <= done <= input.len(),
            rest@ == input.skip(done),
            sorted@ == sorted_by_name(visible(input.take(done))),
        decreases rest.len(),
    {
        let name = rest.remove(0);
        proof {
            assert(input.take(done + 1).drop_last() =~= input.take(done));
            assert(input.take(done + 1).last() == input[done]);
            assert(rest@ =~= input.skip(done + 1));
            lemma_sorted_by_name_len(visible(input.take(done)));
        }
        let hidden = name.unicode_len() > 0 && name.as_str().get_char(0) == '.';
        if !hidden {
            let key = lowercase(name.as_str());
            let mut index = sorted.len();
            let mut searching = true;
            assert(sorted@.take(index as int) =~= sorted@);
            while searching && index > 0
                invariant
                    index <= sorted@.len(),
                    key@ == lowercase_text(name@),
                    searching ==> name_insertion_index(sorted@, name) == name_insertion_index(
                        sorted@.take(index as int),
                        name,
                    ),
                    !searching ==> name_insertion_index(sorted@, name) == index,
                decreases index + (if searching {
                    1int
                } else {
                    0
                }),
            {
                let previous = lowercase(sorted[index - 1].as_str());
                if !text_before(key.as_str(), previous.as_str()) {
                    assert(sorted@.take(index as int).last() == sorted@[index - 1]);
                    searching = false;
                } else {
                    assert(sorted@.take(index as int).drop_last() =~= sorted@.take(index - 1));
                    index -= 1;
                }
            }
            proof {
                lemma_name_insertion_bound(sorted@, name);
            }
            let ghost before = visible(input.take(done));
            proof {
                assert(!is_hidden(name@));
                assert(visible(input.take(done + 1)) == before.push(name));
                assert(before.push(name).drop_last() =~= before);
            }
            sorted.insert(index, name);
        } else {
            proof {
                assert(is_hidden(name@));
            }
        }
        proof {
            done = done + 1;
        }
    }
    assert(input.take(done) =~= input);
    sorted
}

/// The names are in order of their lower-case forms.
pub open spec fn names_ordered(names: Seq<String>) -> bool {
    forall|i: int, j: int|
        0 <= i < j < names.len() ==> text_le(
            lowercase_text((#[trigger] names[i])@),
            lowercase_text((#[trigger] names[j])@),
        )
}

proof fn lemma_name_insertion(sorted: Seq<String>, name: String)
    ensures
        ({
            let at = name_insertion_index(sorted, name);
            &&& forall|k: int|
                at <= k < sorted.len() ==> text_lt(lowercase_text(name@), lowercase_text((#[trigger] sorted[k])@))
            &&& at > 0 ==> text_le(lowercase_text(sorted[at - 1]@), lowercase_text(name@))
        }),
    decreases sorted.len(),
{
    if sorted.len() > 0 {
        let front = sorted.drop_last();
        lemma_name_insertion(front, name);
        lemma_name_insertion_bound(front, name);
        let at = name_insertion_index(sorted, name);
        if text_lt(lowercase_text(name@), lowercase_text(sorted.last()@)) {
            assert forall|k: int| at <= k < sorted.len() implies text_lt(
                lowercase_text(name@),
                lowercase_text((#[trigger] sorted[k])@),
            ) by {
                if k < front.len() {
                    assert(sorted[k] == front[k]);
                }
            }
            if at > 0 {
                assert(sorted[at - 1] == front[at - 1]);
            }
        }
    }
}

proof fn lemma_sorted_by_name(names: Seq<String>)
    ensures
        names_ordered(sorted_by_name(names)),
        sorted_by_name(names).to_multiset() == names.to_multiset(),
    decreases names.len(),
{
    broadcast use vstd::seq_lib::to_multiset_build, vstd::seq_lib::to_multiset_insert;

    if names.len() > 0 {
        let front = names.drop_last();
        let name = names.last();
        lemma_sorted_by_name(front);
        let sorted = sorted_by_name(front);
        lemma_name_insertion(sorted, name);
        lemma_name_insertion_bound(sorted, name);
        let at = name_insertion_index(sorted, name);
        let result = sorted.insert(at, name);
        assert(names =~= front.push(name));
        let key = lowercase_text(name@);
        assert forall|i: int, j: int| 0 <= i < j < result.len() implies text_le(
            lowercase_text((#[trigger] result[i])@),
            lowercase_text((#[trigger] result[j])@),
        ) by {
            if j < at {
                assert(result[i] == sorted[i] && result[j] == sorted[j]);
            } else if j == at {
                assert(result[i] == sorted[i]);
                if i < at - 1 {
                    lemma_text_le_transitive(lowercase_text(sorted[i]@), lowercase_text(sorted[at - 1]@), key);
                }
            } else if i == at {
                assert(result[j] == sorted[j - 1]);
                if text_lt(lowercase_text(sorted[j - 1]@), key) {
                    lemma_text_lt_transitive(key, lowercase_text(sorted[j - 1]@), key);
                    lemma_text_lt_irreflexive(key);
                }
            } else if i < at {
                assert(result[i] == sorted[i] && result[j] == sorted[j - 1]);
            } else {
                assert(result[i] == sorted[i - 1] && result[j] == sorted[j - 1]);
            }
        }
    }
}

proof fn lemma_visible(names: Seq<String>)
    ensures
        forall|i: int| 0 <= i < visible(names).len() ==> !is_hidden((#[trigger] visible(names)[i])@),
        forall|n: String| #[trigger] visible(names).to_multiset().count(n) == if is_hidden(n@) {
            0
        } else {
            names.to_multiset().count(n)
        },
    decreases names.len(),
{
    broadcast use
        vstd::seq_lib::to_multiset_build,
        vstd::seq_lib::to_multiset_contains,
        vstd::multiset::group_multiset_axioms,
    ;

    if names.len() == 0 {
        assert(visible(names) =~= names);
    } else {
        let front = names.drop_last();
        lemma_visible(front);
        assert(names =~= front.push(names.last()));
        let rest = visible(front);
        if !is_hidden(names.last()@) {
            let r = rest.push(names.last());
            assert forall|i: int| 0 <= i < r.len() implies !is_hidden((#[trigger] r[i])@) by {
                if i < rest.len() {
                    assert(r[i] == rest[i]);
                }
            }
        }
    }
}

/// The folder list holds no hidden folder, holds every other folder as
/// often as it was named, and is in order of the names ignoring case.
pub proof fn lemma_list_folders(names: Seq<String>)
    ensures
        ({
            let listed = sorted_by_name(visible(names));
            &&& names_ordered(listed)
            &&& forall|i: int| 0 <= i < listed.len() ==> !is_hidden((#[trigger] listed[i])@)
            &&& forall|n: String| #[trigger] listed.to_multiset().count(n) == if is_hidden(n@) {
                0
            } else {
                names.to_multiset().count(n)
            }
        }),
{
    broadcast use vstd::seq_lib::to_multiset_contains;

    lemma_visible(names);
    lemma_sorted_by_name(visible(names));
    let listed = sorted_by_name(visible(names));
    assert forall|i: int| 0 <= i < listed.len() implies !is_hidden((#[trigger] listed[i])@) by {
        let n = listed[i];
        assert(listed.to_multiset().count(n) > 0);
        assert(visible(names).to_multiset().count(n) > 0);
    }
}

} // verus!
