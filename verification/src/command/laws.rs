//! Where a program is looked for, and what setting variables does to an environment.

use vstd::prelude::*;

use crate::bytes;
use crate::command;
use crate::command::EQUALS;
use crate::env;
use crate::path;

verus! {

/// A program named with a slash anywhere in it is where it says, whatever the search path is: there
/// is one place to look, and that is the name as it was given.
pub proof fn a_slash_ends_the_search(program: Seq<u8>, search: Seq<u8>)
    requires
        program.contains(path::MAIN_SEPARATOR_BYTE),
    ensures
        command::terminated(command::candidates_of(program, search)) == seq![program.push(0)],
{
    assert(command::terminated(command::candidates_of(program, search)) =~= seq![program.push(0)]);
}

/// A program named without a slash is looked for in the directories of the search path, one after
/// the other: a directory more at the end of the path is one place more at the end, with one slash
/// between the directory and the name, and an empty one is none.
pub proof fn the_search_goes_through_the_path(program: Seq<u8>, front: Seq<u8>, dir: Seq<u8>)
    requires
        !program.contains(path::MAIN_SEPARATOR_BYTE),
        !dir.contains(env::PATH_SEPARATOR),
    ensures
        ({
            let before = command::terminated(command::candidates_of(program, front));
            let after = command::terminated(
                command::candidates_of(program, front.push(env::PATH_SEPARATOR) + dir),
            );
            let alone = command::terminated(command::candidates_of(program, dir));
            let place = if dir.last() == path::MAIN_SEPARATOR_BYTE {
                dir + program.push(0)
            } else {
                dir.push(path::MAIN_SEPARATOR_BYTE) + program.push(0)
            };
            if dir.len() > 0 {
                after == before.push(place) && alone == seq![place]
            } else {
                after == before && alone == Seq::<Seq<u8>>::empty()
            }
        }),
{
    bytes::fields_read_back(front, dir, env::PATH_SEPARATOR);
    let before = command::terminated(command::candidates_of(program, front));
    let longer = front.push(env::PATH_SEPARATOR) + dir;
    let after = command::terminated(command::candidates_of(program, longer));
    let alone = command::terminated(command::candidates_of(program, dir));
    if dir.len() > 0 {
        let place = if dir.last() == path::MAIN_SEPARATOR_BYTE {
            dir + program.push(0)
        } else {
            dir.push(path::MAIN_SEPARATOR_BYTE) + program.push(0)
        };
        assert(command::inside(dir, program).push(0) =~= place);
        assert(after =~= before.push(place));
        assert(alone =~= seq![place]);
    } else {
        assert(after =~= before);
        assert(alone =~= Seq::<Seq<u8>>::empty());
    }
}

/// What is tried: the name as it was given, where there is a slash in it; otherwise, for each field
/// of the search path in its order, that directory, a slash unless it ends in one, and the name.
pub proof fn the_places_are_tried(tries: Seq<Vec<u8>>, program: Seq<u8>, search: Seq<u8>)
    requires
        bytes::owned_views(tries) == command::terminated(command::candidates_of(program, search)),
    ensures
        ({
            let dirs = bytes::fields(search, env::PATH_SEPARATOR);
            if program.contains(path::MAIN_SEPARATOR_BYTE) {
                tries.len() == 1 && tries[0]@ == program.push(0)
            } else {
                &&& tries.len() == dirs.len()
                &&& forall|k: int|
                    0 <= k < tries.len() ==> (#[trigger] tries[k])@ == dirs[k] + (if dirs[k].last()
                        == path::MAIN_SEPARATOR_BYTE {
                        seq![]
                    } else {
                        seq![path::MAIN_SEPARATOR_BYTE]
                    }) + program.push(0)
            }
        }),
{
    let goal = command::terminated(command::candidates_of(program, search));
    assert(tries.len() == goal.len());
    if program.contains(path::MAIN_SEPARATOR_BYTE) {
        a_slash_ends_the_search(program, search);
        assert(bytes::owned_views(tries)[0] == tries[0]@);
    } else {
        let fields = bytes::fields(search, env::PATH_SEPARATOR);
        assert forall|k: int| 0 <= k < tries.len() implies (#[trigger] tries[k])@ == fields[k] + (
        if fields[k].last() == path::MAIN_SEPARATOR_BYTE {
            seq![]
        } else {
            seq![path::MAIN_SEPARATOR_BYTE]
        }) + program.push(0) by {
            bytes::fields_are_clean(search, env::PATH_SEPARATOR, k);
            assert(bytes::owned_views(tries)[k] == tries[k]@);
            assert(goal[k] == command::inside(fields[k], program).push(0));
            if fields[k].last() == path::MAIN_SEPARATOR_BYTE {
                assert(fields[k] + Seq::<u8>::empty() =~= fields[k]);
            }
            assert(command::inside(fields[k], program).push(0) =~= fields[k] + (
            if fields[k].last() == path::MAIN_SEPARATOR_BYTE {
                seq![]
            } else {
                seq![path::MAIN_SEPARATOR_BYTE]
            }) + program.push(0));
        }
    }
}

/// Dropping a key drops exactly the entries that begin with it.
proof fn lemma_without(entries: Seq<Seq<u8>>, key: Seq<u8>, x: Seq<u8>)
    ensures
        command::without(entries, key).contains(x) <==> entries.contains(x) && !bytes::begins(
            x,
            key,
        ),
    decreases entries.len(),
{
    let rest = command::without(entries, key);
    if entries.len() > 0 {
        let front = entries.drop_last();
        let kept = command::without(front, key);
        let last = entries.last();
        lemma_without(front, key, x);
        if entries.contains(x) && !bytes::begins(x, key) {
            let i = choose|i: int| 0 <= i < entries.len() && entries[i] == x;
            if i < front.len() {
                assert(front[i] == x);
                assert(kept.contains(x));
                let j = choose|j: int| 0 <= j < kept.len() && kept[j] == x;
                assert(rest[j] == x);
            } else {
                assert(rest[rest.len() - 1] == x);
            }
        }
        if rest.contains(x) {
            let j = choose|j: int| 0 <= j < rest.len() && rest[j] == x;
            if j < kept.len() {
                assert(kept[j] == x);
                let i = choose|i: int| 0 <= i < front.len() && front[i] == x;
                assert(entries[i] == x);
            } else {
                assert(entries[entries.len() - 1] == x);
            }
        }
    }
}

/// What is left after dropping a key does not begin with it.
proof fn lemma_without_at(entries: Seq<Seq<u8>>, key: Seq<u8>, k: int)
    requires
        0 <= k < command::without(entries, key).len(),
    ensures
        !bytes::begins(command::without(entries, key)[k], key),
{
    lemma_without(entries, key, command::without(entries, key)[k]);
}

/// A setting matches a name only as a whole: setting `CARGO` leaves `CARGO_TARGET_DIR` alone.
pub proof fn names_match_whole(name: Seq<u8>, other: Seq<u8>, value: Seq<u8>)
    requires
        !name.contains(EQUALS),
        !other.contains(EQUALS),
    ensures
        bytes::begins(other.push(EQUALS) + value, name.push(EQUALS)) <==> name == other,
{
    let entry = other.push(EQUALS) + value;
    let key = name.push(EQUALS);
    if bytes::begins(entry, key) {
        assert forall|i: int| 0 <= i < key.len() implies entry[i] == key[i] by {
            assert(entry.take(key.len() as int)[i] == entry[i]);
        }
        if name.len() < other.len() {
            assert(other.contains(other[name.len() as int]));
            assert(entry[name.len() as int] == other[name.len() as int]);
        } else if other.len() < name.len() {
            assert(name.contains(name[other.len() as int]));
            assert(entry[other.len() as int] == EQUALS);
            assert(key[other.len() as int] == name[other.len() as int]);
        } else {
            assert forall|i: int| 0 <= i < name.len() implies name[i] == other[i] by {
                assert(entry[i] == key[i]);
            }
            assert(name =~= other);
        }
    }
    if name == other {
        assert(entry.take(key.len() as int) =~= key);
    }
}

/// What [`command::Command::env`] sets has the key it was given.
pub proof fn a_setting_has_its_key(name: Seq<u8>, value: Seq<u8>)
    requires
        !name.contains(EQUALS),
    ensures
        command::key_of(name.push(EQUALS) + value) == name.push(EQUALS),
{
    let entry = name.push(EQUALS) + value;
    assert forall|j: int| 0 <= j < name.len() implies entry[j] != EQUALS by {
        assert(name.contains(name[j]));
    }
    bytes::lemma_first_is(entry, EQUALS, name.len() as int);
    assert(entry.take(name.len() as int + 1) =~= name.push(EQUALS));
}

/// An entry begins with its key.
proof fn lemma_begins_with_key(entry: Seq<u8>)
    ensures
        bytes::begins(entry, command::key_of(entry)),
{
    bytes::lemma_first_of(entry, EQUALS);
    assert(entry.take(entry.len() as int) =~= entry);
}

/// An entry that sets a name begins with another's key only when the keys are the same.
proof fn lemma_keys(entry: Seq<u8>, other: Seq<u8>)
    requires
        entry.contains(EQUALS),
        other.contains(EQUALS),
        bytes::begins(entry, command::key_of(other)),
    ensures
        command::key_of(entry) == command::key_of(other),
{
    bytes::lemma_first_of(entry, EQUALS);
    bytes::lemma_first_of(other, EQUALS);
    let k = command::key_of(other);
    let n = bytes::first_of(other, EQUALS)->0;
    assert forall|i: int| 0 <= i < k.len() implies entry[i] == k[i] by {
        assert(entry.take(k.len() as int)[i] == entry[i]);
    }
    assert(entry[n] == EQUALS);
    bytes::lemma_first_is(entry, EQUALS, n);
}

/// Setting a variable twice keeps the last: the program sees the last setting of a name, once, and
/// nothing else of that name, whatever it inherits.
pub proof fn the_last_setting_wins(inherited: Seq<Seq<u8>>, overrides: Seq<Seq<u8>>, i: int)
    requires
        forall|j: int| 0 <= j < overrides.len() ==> (#[trigger] overrides[j]).contains(EQUALS),
        0 <= i < overrides.len(),
        forall|j: int|
            i < j < overrides.len() ==> command::key_of(#[trigger] overrides[j])
                != command::key_of(overrides[i]),
    ensures
        exists|k: int|
            0 <= k < command::environment_of(inherited, overrides).len()
                && #[trigger] command::environment_of(inherited, overrides)[k] == overrides[i]
                && forall|m: int|
                0 <= m < command::environment_of(inherited, overrides).len() && m != k
                    ==> !bytes::begins(
                    #[trigger] command::environment_of(inherited, overrides)[m],
                    command::key_of(overrides[i]),
                ),
    decreases overrides.len(),
{
    let front = overrides.drop_last();
    let last = overrides.last();
    let before = command::environment_of(inherited, front);
    let after = command::environment_of(inherited, overrides);
    let kept = command::without(before, command::key_of(last));
    let entry = overrides[i];
    let key = command::key_of(entry);
    assert(overrides[overrides.len() - 1].contains(EQUALS));
    if i == overrides.len() - 1 {
        let k = kept.len() as int;
        assert(after[k] == entry);
        assert forall|m: int| 0 <= m < after.len() && m != k implies !bytes::begins(
            #[trigger] after[m],
            key,
        ) by {
            lemma_without_at(before, key, m);
            assert(after[m] == kept[m]);
        }
    } else {
        assert forall|j: int| 0 <= j < front.len() implies (#[trigger] front[j]).contains(
            EQUALS,
        ) by {
            assert(front[j] == overrides[j]);
        }
        assert forall|j: int| i < j < front.len() implies command::key_of(#[trigger] front[j])
            != command::key_of(front[i]) by {
            assert(front[j] == overrides[j]);
        }
        assert(front[i] == entry);
        the_last_setting_wins(inherited, front, i);
        assert(command::key_of(overrides[overrides.len() - 1]) != key);
        assert(entry.contains(EQUALS));
        if bytes::begins(last, key) {
            lemma_keys(last, entry);
        }
        if bytes::begins(entry, command::key_of(last)) {
            lemma_keys(entry, last);
        }
        let k0 = choose|k: int|
            0 <= k < before.len() && #[trigger] before[k] == entry && forall|m: int|
                0 <= m < before.len() && m != k ==> !bytes::begins(#[trigger] before[m], key);
        lemma_unique_stays(before, command::key_of(last), key, k0);
        let k = choose|k: int|
            0 <= k < kept.len() && #[trigger] kept[k] == entry && forall|m: int|
                0 <= m < kept.len() && m != k ==> !bytes::begins(#[trigger] kept[m], key);
        assert(after[k] == entry);
        assert forall|m: int| 0 <= m < after.len() && m != k implies !bytes::begins(
            #[trigger] after[m],
            key,
        ) by {
            if m < kept.len() {
                assert(after[m] == kept[m]);
            }
        }
    }
}

/// Dropping another key keeps an entry that is the only one of its own.
proof fn lemma_unique_stays(entries: Seq<Seq<u8>>, dropped: Seq<u8>, key: Seq<u8>, k: int)
    requires
        0 <= k < entries.len(),
        !bytes::begins(entries[k], dropped),
        forall|m: int|
            0 <= m < entries.len() && m != k ==> !bytes::begins(#[trigger] entries[m], key),
    ensures
        exists|j: int|
            0 <= j < command::without(entries, dropped).len()
                && #[trigger] command::without(entries, dropped)[j] == entries[k] && forall|m: int|
                0 <= m < command::without(entries, dropped).len() && m != j ==> !bytes::begins(
                    #[trigger] command::without(entries, dropped)[m],
                    key,
                ),
    decreases entries.len(),
{
    let front = entries.drop_last();
    let kept = command::without(front, dropped);
    let all = command::without(entries, dropped);
    let n = entries.len() - 1;
    if k == n {
        let j = all.len() - 1;
        assert(all[j] == entries[k]);
        assert forall|m: int| 0 <= m < all.len() && m != j implies !bytes::begins(
            #[trigger] all[m],
            key,
        ) by {
            assert(all[m] == kept[m]);
            assert(kept.contains(kept[m]));
            lemma_without(front, dropped, kept[m]);
            let i = choose|i: int| 0 <= i < front.len() && front[i] == kept[m];
            assert(entries[i] == kept[m]);
        }
    } else {
        assert forall|m: int| 0 <= m < front.len() && m != k implies !bytes::begins(
            #[trigger] front[m],
            key,
        ) by {
            assert(front[m] == entries[m]);
        }
        assert(front[k] == entries[k]);
        lemma_unique_stays(front, dropped, key, k);
        let j = choose|j: int|
            0 <= j < kept.len() && #[trigger] kept[j] == entries[k] && forall|m: int|
                0 <= m < kept.len() && m != j ==> !bytes::begins(#[trigger] kept[m], key);
        assert(all[j] == entries[k]);
        assert(!bytes::begins(entries[n], key));
        assert forall|m: int| 0 <= m < all.len() && m != j implies !bytes::begins(
            #[trigger] all[m],
            key,
        ) by {
            if m < kept.len() {
                assert(all[m] == kept[m]);
            }
        }
    }
}

/// A variable that is not set is inherited.
pub proof fn other_variables_are_inherited(
    inherited: Seq<Seq<u8>>,
    overrides: Seq<Seq<u8>>,
    x: Seq<u8>,
)
    requires
        forall|j: int|
            0 <= j < overrides.len() ==> !bytes::begins(
                x,
                command::key_of(#[trigger] overrides[j]),
            ),
    ensures
        inherited.contains(x) <==> command::environment_of(inherited, overrides).contains(x),
    decreases overrides.len(),
{
    if overrides.len() > 0 {
        let front = overrides.drop_last();
        let last = overrides[overrides.len() - 1];
        assert forall|j: int| 0 <= j < front.len() implies !bytes::begins(
            x,
            command::key_of(#[trigger] front[j]),
        ) by {
            assert(front[j] == overrides[j]);
        }
        other_variables_are_inherited(inherited, front, x);
        let before = command::environment_of(inherited, front);
        let kept = command::without(before, command::key_of(last));
        let after = command::environment_of(inherited, overrides);
        assert(!bytes::begins(x, command::key_of(last)));
        lemma_without(before, command::key_of(last), x);
        lemma_begins_with_key(last);
        if kept.contains(x) {
            let k = choose|k: int| 0 <= k < kept.len() && kept[k] == x;
            assert(after[k] == x);
        }
        if after.contains(x) {
            let k = choose|k: int| 0 <= k < after.len() && after[k] == x;
            if k < kept.len() {
                assert(kept[k] == x);
            }
        }
    }
}

/// Setting one variable takes out every entry of that name, keeps all others in their order, and
/// puts the setting last.
pub proof fn a_setting_replaces_its_name(
    inherited: Seq<Seq<u8>>,
    name: Seq<u8>,
    value: Seq<u8>,
)
    requires
        !name.contains(EQUALS),
    ensures
        command::environment_of(inherited, seq![name.push(EQUALS) + value]) == inherited.filter(
            |x: Seq<u8>| !name.push(EQUALS).is_prefix_of(x),
        ).push(name.push(EQUALS) + value),
{
    let entry = name.push(EQUALS) + value;
    a_setting_has_its_key(name, value);
    reveal_with_fuel(command::environment_of, 2);
    assert(seq![entry].drop_last() =~= Seq::<Seq<u8>>::empty());
    lemma_without_filters(inherited, name.push(EQUALS));
}

/// What is left after dropping a key are the entries that do not begin with it, in their order.
proof fn lemma_without_filters(entries: Seq<Seq<u8>>, key: Seq<u8>)
    ensures
        command::without(entries, key) == entries.filter(|x: Seq<u8>| !key.is_prefix_of(x)),
    decreases entries.len(),
{
    reveal(Seq::filter);
    if entries.len() > 0 {
        lemma_without_filters(entries.drop_last(), key);
        let last = entries.last();
        if key.len() <= last.len() {
            assert(last.take(key.len() as int) =~= last.subrange(0, key.len() as int));
        }
    } else {
        assert(command::without(entries, key) =~= entries);
    }
}

/// Settings are made one after the other, on top of what is inherited.
pub proof fn settings_are_made_in_turn(
    inherited: Seq<Seq<u8>>,
    overrides: Seq<Seq<u8>>,
    entry: Seq<u8>,
)
    ensures
        command::environment_of(inherited, Seq::empty()) == inherited,
        command::environment_of(inherited, overrides.push(entry)) == command::environment_of(
            command::environment_of(inherited, overrides),
            seq![entry],
        ),
{
    reveal_with_fuel(command::environment_of, 2);
    assert(overrides.push(entry).drop_last() =~= overrides);
    assert(seq![entry].drop_last() =~= Seq::<Seq<u8>>::empty());
}

/// What the program is handed are the same strings, each with a NUL and nothing else added.
pub proof fn each_string_is_terminated(list: Seq<Seq<u8>>)
    ensures
        command::terminated(list).len() == list.len(),
        forall|k: int|
            0 <= k < list.len() ==> (#[trigger] command::terminated(list)[k]) == list[k].push(0),
{
}

} // verus!
