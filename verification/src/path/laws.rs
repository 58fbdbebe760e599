//! What holds between the path operations.

use vstd::prelude::*;
use vstd::utf8;

use crate::bytes;
use crate::path;
use crate::path::{AsPath, DOT, MAIN_SEPARATOR_BYTE};

verus! {

/// Joining a relative path on and stripping the base off gives the relative path back.
pub proof fn strip_prefix_undoes_join(base: Seq<u8>, other: Seq<u8>)
    requires
        !path::absolute_of(other),
    ensures
        path::strip_prefix_of(path::join_of(base, other), base) == Some(other),
{
    let joined = path::join_of(base, other);
    let n = path::components_of(base).len();
    join_appends_parts(base, other);
    assert(path::components_of(base) =~= path::components_of(joined).subrange(0, n as int));
    if base.len() == 0 {
        assert(joined =~= other);
    } else {
        assert(joined[0] == base[0]);
        let tail = joined.skip(base.len() as int);
        assert(joined =~= base + tail);
        lemma_after_front(base, tail);
        if base.last() == MAIN_SEPARATOR_BYTE {
            assert(tail =~= other);
        } else {
            assert(tail.drop_first() =~= other);
        }
        reveal_with_fuel(bytes::trim_start, 3);
        assert(bytes::trim_start(tail, MAIN_SEPARATOR_BYTE) == other);
    }
}

/// The separators a path begins with make no difference to what follows its parts.
proof fn lemma_after_separator(p: Seq<u8>, n: nat)
    requires
        path::absolute_of(p),
    ensures
        path::after_parts(p, n) == path::after_parts(p.drop_first(), n),
    decreases n,
{
    if n > 0 {
        lemma_after_separator(p, (n - 1) as nat);
    }
}

/// What follows one part more than `n` is what follows `n` parts of what follows the first.
proof fn lemma_after_first(p: Seq<u8>, n: nat)
    requires
        !path::absolute_of(p),
    ensures
        path::after_parts(p, n + 1) == path::after_parts(
            p.skip(bytes::until(p, MAIN_SEPARATOR_BYTE).len() as int),
            n,
        ),
    decreases n,
{
    reveal_with_fuel(path::after_parts, 2);
    if n > 0 {
        lemma_after_first(p, (n - 1) as nat);
    }
}

/// What follows the parts of the front of a path, cut at a separator, is the rest of it.
proof fn lemma_after_front(a: Seq<u8>, b: Seq<u8>)
    requires
        a.len() == 0 || a.last() == MAIN_SEPARATOR_BYTE || b.len() == 0 || b[0]
            == MAIN_SEPARATOR_BYTE,
    ensures
        path::after_parts(a + b, path::parts_of(a).len()) == bytes::trim_start(
            b,
            MAIN_SEPARATOR_BYTE,
        ),
    decreases a.len(),
{
    let whole = a + b;
    if a.len() == 0 {
        assert(whole =~= b);
    } else if a[0] == MAIN_SEPARATOR_BYTE {
        let t = a.drop_first();
        if t.len() > 0 {
            assert(t.last() == a.last());
        }
        assert(whole.drop_first() =~= t + b);
        lemma_after_separator(whole, path::parts_of(a).len());
        lemma_after_front(t, b);
    } else {
        bytes::lemma_first_of(a, MAIN_SEPARATOR_BYTE);
        bytes::lemma_first_of(whole, MAIN_SEPARATOR_BYTE);
        let run = bytes::until(a, MAIN_SEPARATOR_BYTE);
        let n = run.len() as int;
        assert(forall|j: int| 0 <= j < a.len() ==> whole[j] == a[j]);
        if n < a.len() {
            assert(whole[n] == a[n]);
        } else if b.len() > 0 {
            assert(whole[n] == b[0]);
        }
        assert(bytes::until(whole, MAIN_SEPARATOR_BYTE) =~= run);
        let t = a.skip(n);
        assert(whole.skip(n) =~= t + b);
        if t.len() > 0 {
            assert(t.last() == a.last());
        }
        lemma_after_first(whole, path::parts_of(t).len());
        lemma_after_front(t, b);
    }
}

/// An absolute path keeps its meaning whatever it is joined onto.
pub proof fn absolute_replaces(base: Seq<u8>, other: Seq<u8>)
    requires
        path::absolute_of(other),
    ensures
        path::join_of(base, other) == other,
{
}

/// A name without separators is what the path it was joined onto ends with.
pub proof fn join_sets_file_name(base: Seq<u8>, name: Seq<u8>)
    requires
        name.len() > 0,
        !name.contains(MAIN_SEPARATOR_BYTE),
    ensures
        path::file_name_of(path::join_of(base, name)) == Some(name),
{
    let joined = path::join_of(base, name);
    let at = joined.len() - name.len();
    assert(name[0] != MAIN_SEPARATOR_BYTE);
    assert forall|j: int| at <= j < joined.len() implies joined[j] != MAIN_SEPARATOR_BYTE by {
        assert(joined[j] == name[j - at]);
    }
    assert(joined.skip(at) =~= name);
    if base.len() == 0 {
        bytes::lemma_last_none(joined, MAIN_SEPARATOR_BYTE);
    } else {
        bytes::lemma_last_is(joined, MAIN_SEPARATOR_BYTE, at - 1);
    }
}

/// Joining a name onto a path that does not end in a separator and dropping it again changes
/// nothing.
pub proof fn pop_undoes_join(base: Seq<u8>, name: Seq<u8>)
    requires
        base.len() > 0,
        base.last() != MAIN_SEPARATOR_BYTE,
        name.len() > 0,
        !name.contains(MAIN_SEPARATOR_BYTE),
    ensures
        path::pop_of(path::join_of(base, name)) == Some(base),
        path::parent_of(path::join_of(base, name)) == Some(base),
{
    let joined = path::join_of(base, name);
    let at = base.len() as int;
    assert(name[0] != MAIN_SEPARATOR_BYTE);
    assert forall|j: int| at < j < joined.len() implies joined[j] != MAIN_SEPARATOR_BYTE by {
        assert(joined[j] == name[j - at - 1]);
    }
    bytes::lemma_last_is(joined, MAIN_SEPARATOR_BYTE, at);
    assert(joined.take(at) =~= base);
    assert(joined.last() == name.last());
}

/// A path is its parent joined with its final component, as long as one separator stands between
/// them.
pub proof fn parent_join_file_name(p: Seq<u8>)
    requires
        path::parent_of(p) is Some,
        path::file_name_of(p) is Some,
        path::name_start_of(p) > 1 ==> p[path::name_start_of(p) - 2] != MAIN_SEPARATOR_BYTE,
    ensures
        path::join_of(path::parent_of(p)->0, path::file_name_of(p)->0) == p,
{
    bytes::lemma_last_of(p, MAIN_SEPARATOR_BYTE);
    let name = path::file_name_of(p)->0;
    assert(name[0] == p[path::name_start_of(p)]);
    assert(path::join_of(path::parent_of(p)->0, name) =~= p);
}

/// Replacing the final component by a name without separators makes that name the final one, and
/// leaves the components before it.
pub proof fn set_file_name_sets_it(p: Seq<u8>, name: Seq<u8>)
    requires
        name.len() > 0,
        !name.contains(MAIN_SEPARATOR_BYTE),
    ensures
        path::file_name_of(path::set_file_name_of(p, name)) == Some(name),
        path::components_of(path::set_file_name_of(p, name)) == (if path::parts_of(p).len() > 0 {
            path::components_of(p).drop_last()
        } else {
            path::components_of(p)
        }).push(name),
{
    assert(name.contains(name[0]));
    pop_drops_the_last_component(p);
    bytes::a_clean_run_is_one_field(name, MAIN_SEPARATOR_BYTE);
    let base = match path::pop_of(p) {
        Some(q) => q,
        None => p,
    };
    join_sets_file_name(base, name);
    join_appends_parts(base, name);
    assert(path::components_of(base) + seq![name] =~= path::components_of(base).push(name));
}

/// A component with an extension is its stem, a dot and the extension.
pub proof fn stem_dot_extension(p: Seq<u8>)
    requires
        path::extension_of(p) is Some,
    ensures
        path::file_stem_of(p) is Some,
        path::file_name_of(p) == Some(path::file_stem_of(p)->0.push(DOT) + path::extension_of(p)->0),
{
    let name = path::file_name_of(p)->0;
    bytes::lemma_last_of(name, DOT);
    assert(name =~= path::file_stem_of(p)->0.push(DOT) + path::extension_of(p)->0);
}

/// The extension that was set is the one that is read back, on the same stem in the same
/// directory.
pub proof fn set_extension_sets_it(p: Seq<u8>, ext: Seq<u8>)
    requires
        path::file_name_of(p) is Some,
        ext.len() > 0,
        !ext.contains(DOT),
        !ext.contains(MAIN_SEPARATOR_BYTE),
    ensures
        path::extension_of(path::set_extension_of(p, ext)) == Some(ext),
        path::file_stem_of(path::set_extension_of(p, ext)) == path::file_stem_of(p),
        path::parent_of(path::set_extension_of(p, ext)) == path::parent_of(p),
{
    let start = path::name_start_of(p);
    let name = p.skip(start);
    let stem = path::file_stem_of(p)->0;
    let out = path::set_extension_of(p, ext);
    bytes::lemma_last_of(p, MAIN_SEPARATOR_BYTE);
    bytes::lemma_last_of(name, DOT);
    assert(stem.len() > 0);
    assert(out =~= p.take(start) + stem.push(DOT) + ext);
    // The separators are where they were.
    assert forall|j: int| start <= j < out.len() implies out[j] != MAIN_SEPARATOR_BYTE by {
        if j < start + stem.len() {
            assert(out[j] == p[j]);
        } else if j > start + stem.len() {
            assert(out[j] == ext[j - start - stem.len() - 1]);
        }
    }
    if start == 0 {
        bytes::lemma_last_none(out, MAIN_SEPARATOR_BYTE);
    } else {
        assert(out[start - 1] == p[start - 1]);
        bytes::lemma_last_is(out, MAIN_SEPARATOR_BYTE, start - 1);
        assert(out.take(start - 1) =~= p.take(start - 1));
    }
    // The last dot is the new one.
    let out_name = out.skip(start);
    assert(out_name =~= stem.push(DOT) + ext);
    assert forall|j: int| stem.len() < j < out_name.len() implies out_name[j] != DOT by {
        assert(out_name[j] == ext[j - stem.len() - 1]);
    }
    bytes::lemma_last_is(out_name, DOT, stem.len() as int);
    assert(out_name.skip((stem.len() + 1) as int) =~= ext);
    assert(out_name.take(stem.len() as int) =~= stem);
}

/// The parts of a longer path are those of its two halves, when it is cut at a separator.
pub proof fn parts_of_concatenation(a: Seq<u8>, b: Seq<u8>)
    requires
        a.len() == 0 || a.last() == MAIN_SEPARATOR_BYTE || b.len() == 0 || b[0]
            == MAIN_SEPARATOR_BYTE,
    ensures
        path::parts_of(a + b) == path::parts_of(a) + path::parts_of(b),
{
    bytes::fields_of_two_halves(a, b, MAIN_SEPARATOR_BYTE);
}

/// A path starts with another exactly when it has the other's components, whole, in front of its
/// own.
pub proof fn starts_with_matches_components(p: Seq<u8>, prefix: Seq<u8>)
    ensures
        path::starts_with_of(p, prefix) <==> (path::components_of(prefix).len()
            <= path::components_of(p).len() && forall|k: int|
            0 <= k < path::components_of(prefix).len() ==> path::components_of(p)[k]
                == #[trigger] path::components_of(prefix)[k]),
{
    let all = path::components_of(p);
    let front = path::components_of(prefix);
    if path::starts_with_of(p, prefix) {
        assert forall|k: int| 0 <= k < front.len() implies all[k] == #[trigger] front[k] by {
            assert(all.subrange(0, front.len() as int)[k] == all[k]);
        }
    }
}

/// A separator at the end makes no difference to what a path starts with, nor to what starts with
/// it.
pub proof fn separators_do_not_count(p: Seq<u8>, prefix: Seq<u8>)
    ensures
        p.len() > 0 ==> path::starts_with_of(p.push(MAIN_SEPARATOR_BYTE), prefix)
            == path::starts_with_of(p, prefix),
        prefix.len() > 0 ==> path::starts_with_of(p, prefix.push(MAIN_SEPARATOR_BYTE))
            == path::starts_with_of(p, prefix),
{
    lemma_a_separator_more(p);
    lemma_a_separator_more(prefix);
}

/// Joining a relative path on adds its parts after the base's components.
pub proof fn join_appends_parts(base: Seq<u8>, other: Seq<u8>)
    requires
        !path::absolute_of(other),
    ensures
        path::components_of(path::join_of(base, other)) == path::components_of(base) + path::parts_of(other),
{
    let joined = path::join_of(base, other);
    if base.len() == 0 {
        assert(joined =~= other);
        assert(path::components_of(base) =~= Seq::empty());
        assert(path::components_of(base) + path::parts_of(other) =~= path::parts_of(other));
    } else {
        assert(joined[0] == base[0]);
        if base.last() == MAIN_SEPARATOR_BYTE {
            parts_of_concatenation(base, other);
        } else {
            parts_of_concatenation(base + path::root(), other);
            parts_of_concatenation(base, path::root());
            assert((base + path::root()).last() == MAIN_SEPARATOR_BYTE);
            assert(path::parts_of(path::root()) =~= Seq::empty()) by {
                assert(path::root().drop_first() =~= Seq::empty());
                assert(bytes::fields(Seq::<u8>::empty(), MAIN_SEPARATOR_BYTE) =~= Seq::empty());
            }
            assert(path::parts_of(base) + path::parts_of(path::root()) =~= path::parts_of(base));
        }
        assert(path::components_of(joined) =~= path::components_of(base) + path::parts_of(other));
    }
}

/// A system call that reads a path up to its terminator reads exactly the path, unless the path
/// itself holds a NUL.
pub proof fn as_c_reads_back(p: Seq<u8>)
    requires
        !p.contains(0),
    ensures
        bytes::until(p.push(0), 0) == p,
{
    let c = p.push(0);
    bytes::lemma_first_of(c, 0);
    assert forall|j: int| 0 <= j < p.len() implies c[j] != 0 by {
        assert(c[j] == p[j]);
    }
    assert(c[p.len() as int] == 0);
    assert(c.take(p.len() as int) =~= p);
}

/// A path and each of its parents, in the order in which they are handed out.
pub open spec fn ancestors_of(p: Seq<u8>) -> Seq<Seq<u8>>
    decreases p.len(),
{
    match path::next_ancestor_of(p) {
        Some(q) => seq![p] + ancestors_of(q),
        None => seq![p],
    }
}

/// The ancestors are the path and then, each time, the parent of the one before, strictly shorter.
/// The last one has no parent, or is the root.
pub proof fn ancestors_are_the_parents(p: Seq<u8>, k: int)
    requires
        0 <= k < ancestors_of(p).len(),
    ensures
        ancestors_of(p)[0] == p,
        k + 1 < ancestors_of(p).len() ==> path::parent_of(ancestors_of(p)[k]) == Some(
            ancestors_of(p)[k + 1],
        ) && ancestors_of(p)[k + 1].len() < ancestors_of(p)[k].len(),
        k + 1 == ancestors_of(p).len() ==> path::parent_of(ancestors_of(p)[k]) is None
            || ancestors_of(p)[k] == path::root(),
    decreases p.len(),
{
    match path::next_ancestor_of(p) {
        Some(q) => {
            let rest = ancestors_of(q);
            assert(ancestors_of(p) =~= seq![p] + rest);
            ancestors_are_the_parents(q, 0);
            if k > 0 {
                ancestors_are_the_parents(q, k - 1);
            }
        },
        None => {
            bytes::lemma_last_of(p, MAIN_SEPARATOR_BYTE);
            if path::parent_of(p) is Some {
                assert(p =~= path::root());
            }
        },
    }
}

/// Dropping the final component always makes the path shorter.
pub proof fn pop_shortens(p: Seq<u8>)
    requires
        path::pop_of(p) is Some,
    ensures
        path::pop_of(p)->0.len() < p.len(),
{
    bytes::lemma_trim_end(p, MAIN_SEPARATOR_BYTE);
    bytes::lemma_last_of(bytes::trim_end(p, MAIN_SEPARATOR_BYTE), MAIN_SEPARATOR_BYTE);
}

/// One separator more at the end adds no part.
proof fn lemma_a_separator_more(p: Seq<u8>)
    ensures
        path::parts_of(p.push(MAIN_SEPARATOR_BYTE)) == path::parts_of(p),
        p.len() > 0 ==> path::components_of(p.push(MAIN_SEPARATOR_BYTE)) == path::components_of(p),
{
    assert(p.push(MAIN_SEPARATOR_BYTE) =~= p + path::root());
    parts_of_concatenation(p, path::root());
    bytes::lemma_only_separators(path::root(), MAIN_SEPARATOR_BYTE);
    assert(path::parts_of(p) + path::parts_of(path::root()) =~= path::parts_of(p));
    if p.len() > 0 {
        assert(p.push(MAIN_SEPARATOR_BYTE)[0] == p[0]);
    }
}

/// There is a final component to drop exactly where there is a part, and dropping it takes that
/// component and leaves the others.
pub proof fn pop_drops_the_last_component(p: Seq<u8>)
    ensures
        path::pop_of(p) is Some <==> path::parts_of(p).len() > 0,
        path::pop_of(p) matches Some(q) ==> path::components_of(q)
            == path::components_of(p).drop_last(),
{
    let named = bytes::trim_end(p, MAIN_SEPARATOR_BYTE);
    bytes::lemma_trim_end(p, MAIN_SEPARATOR_BYTE);
    let seps = p.skip(named.len() as int);
    assert(p =~= named + seps);
    bytes::lemma_only_separators(seps, MAIN_SEPARATOR_BYTE);
    parts_of_concatenation(named, seps);
    assert(path::parts_of(p) =~= path::parts_of(named));
    if named.len() > 0 {
        assert(p[0] == named[0]);
        bytes::lemma_last_of(named, MAIN_SEPARATOR_BYTE);
        let at = path::name_start_of(named);
        let front = named.take(at);
        let name = named.skip(at);
        assert(named =~= front + name);
        assert forall|j: int| 0 <= j < name.len() implies name[j] != MAIN_SEPARATOR_BYTE by {
            assert(name[j] == named[at + j]);
        }
        bytes::a_clean_run_is_one_field(name, MAIN_SEPARATOR_BYTE);
        parts_of_concatenation(front, name);
        let q = path::pop_of(p)->0;
        if at == 0 {
            assert(q =~= front);
        } else if at == 1 {
            assert(front =~= path::root());
        } else {
            assert(front =~= q.push(MAIN_SEPARATOR_BYTE));
            lemma_a_separator_more(q);
            assert(q[0] == p[0]);
        }
        assert(path::parts_of(front) == path::parts_of(q));
        assert(path::parts_of(p) =~= path::parts_of(q).push(name));
        assert(path::components_of(q) =~= path::components_of(p).drop_last());
    }
}

/// What lies inside something inside a directory lies inside the directory.
pub proof fn starts_with_is_transitive(outer: Seq<u8>, middle: Seq<u8>, inner: Seq<u8>)
    requires
        path::starts_with_of(inner, middle),
        path::starts_with_of(middle, outer),
    ensures
        path::starts_with_of(inner, outer),
{
    let n = path::components_of(outer).len() as int;
    let m = path::components_of(middle).len() as int;
    assert(path::components_of(inner).subrange(0, m).subrange(0, n) =~= path::components_of(
        inner,
    ).subrange(0, n));
}

/// A name joined onto a directory lies inside it.
pub proof fn a_child_is_inside(dir: Seq<u8>, name: Seq<u8>)
    requires
        path::clean(name),
    ensures
        path::starts_with_of(path::join_of(dir, name), dir),
{
    assert(name.contains(name[0]));
    strip_prefix_undoes_join(dir, name);
}

/// Joining names on one after the other appends them to the components.
pub proof fn join_all_appends_parts(base: Seq<u8>, parts: Seq<Seq<u8>>)
    requires
        forall|k: int| 0 <= k < parts.len() ==> path::clean(#[trigger] parts[k]),
    ensures
        path::components_of(path::join_all_of(base, parts)) == path::components_of(base) + parts,
    decreases parts.len(),
{
    if parts.len() == 0 {
        assert(path::components_of(base) + parts =~= path::components_of(base));
    } else {
        let front = parts.drop_last();
        let last = parts[parts.len() - 1];
        assert(path::clean(last));
        assert forall|k: int| 0 <= k < front.len() implies path::clean(#[trigger] front[k]) by {
            assert(front[k] == parts[k]);
        }
        join_all_appends_parts(base, front);
        let before = path::join_all_of(base, front);
        assert(last.contains(last[0]));
        bytes::a_clean_run_is_one_field(last, MAIN_SEPARATOR_BYTE);
        join_appends_parts(before, last);
        assert(path::components_of(base) + front + seq![last] =~= path::components_of(base)
            + parts);
    }
}


/// The final component is what follows the last separator, unless that is nothing.
pub proof fn the_final_component(dir: Seq<u8>, name: Seq<u8>)
    requires
        dir.len() == 0 || dir.last() == MAIN_SEPARATOR_BYTE,
        !name.contains(MAIN_SEPARATOR_BYTE),
    ensures
        path::name_start_of(dir + name) == dir.len(),
        path::file_name_of(dir + name) == (if name.len() > 0 {
            Some(name)
        } else {
            None
        }),
{
    let p = dir + name;
    assert(p.skip(dir.len() as int) =~= name);
    if dir.len() == 0 {
        assert(p =~= name);
        bytes::the_last_is_found(seq![], MAIN_SEPARATOR_BYTE, name);
    } else {
        bytes::the_last_is_found(dir.drop_last(), MAIN_SEPARATOR_BYTE, name);
        assert(dir.drop_last().push(MAIN_SEPARATOR_BYTE) + name =~= p);
    }
}

/// The parent is what stands before the last separator, byte for byte, and the root for a name in
/// the root; a name alone has none.
pub proof fn the_parent(dir: Seq<u8>, name: Seq<u8>)
    requires
        !name.contains(MAIN_SEPARATOR_BYTE),
    ensures
        path::parent_of(dir.push(MAIN_SEPARATOR_BYTE) + name) == Some(
            if dir.len() == 0 {
                seq![MAIN_SEPARATOR_BYTE]
            } else {
                dir
            },
        ),
        path::parent_of(name) is None,
{
    let p = dir.push(MAIN_SEPARATOR_BYTE) + name;
    bytes::the_last_is_found(dir, MAIN_SEPARATOR_BYTE, name);
    assert(p.take(dir.len() as int) =~= dir);
}

/// Whether a name has no extension: no dot in it, or none but one that it begins with.
pub open spec fn plain(name: Seq<u8>) -> bool {
    !name.contains(DOT) || (name[0] == DOT && !name.drop_first().contains(DOT))
}

/// The extension is what follows the last dot of the final component, whatever stands before, and
/// the stem is what stands before that dot.
#[verifier::spinoff_prover]
pub proof fn the_stem_and_the_extension(dir: Seq<u8>, stem: Seq<u8>, ext: Seq<u8>)
    requires
        dir.len() == 0 || dir.last() == MAIN_SEPARATOR_BYTE,
        stem.len() > 0,
        !stem.contains(MAIN_SEPARATOR_BYTE),
        !ext.contains(MAIN_SEPARATOR_BYTE),
        !ext.contains(DOT),
    ensures
        path::extension_of(dir + (stem.push(DOT) + ext)) == Some(ext),
        path::file_stem_of(dir + (stem.push(DOT) + ext)) == Some(stem),
{
    let name = stem.push(DOT) + ext;
    lemma_no_separator(stem, ext);
    the_final_component(dir, name);
    bytes::the_last_is_found(stem, DOT, ext);
    assert(name.take(stem.len() as int) =~= stem);
    assert(name.skip(stem.len() as int + 1) =~= ext);
}

/// A stem and an extension without separators make a name without separators.
proof fn lemma_no_separator(stem: Seq<u8>, ext: Seq<u8>)
    requires
        !stem.contains(MAIN_SEPARATOR_BYTE),
        !ext.contains(MAIN_SEPARATOR_BYTE),
    ensures
        !(stem.push(DOT) + ext).contains(MAIN_SEPARATOR_BYTE),
{
    let name = stem.push(DOT) + ext;
    assert forall|j: int| 0 <= j < name.len() implies name[j] != MAIN_SEPARATOR_BYTE by {
        if j < stem.len() {
            assert(name[j] == stem[j]);
        } else if j > stem.len() {
            assert(name[j] == ext[j - stem.len() - 1]);
        }
    }
}

/// A name without a dot, or with none but the one it begins with, has no extension and is its own
/// stem. A path without a final component has neither.
pub proof fn a_plain_name_has_no_extension(dir: Seq<u8>, name: Seq<u8>)
    requires
        dir.len() == 0 || dir.last() == MAIN_SEPARATOR_BYTE,
        !name.contains(MAIN_SEPARATOR_BYTE),
        !name.contains(DOT) || (name[0] == DOT && !name.drop_first().contains(DOT)),
    ensures
        path::extension_of(dir + name) is None,
        path::file_stem_of(dir + name) == (if name.len() > 0 {
            Some(name)
        } else {
            None
        }),
{
    the_final_component(dir, name);
    lemma_plain(name);
}

/// The only dot of a plain name is its first byte.
proof fn lemma_plain(name: Seq<u8>)
    requires
        plain(name),
    ensures
        path::dot_of(name) is None,
{
    if name.contains(DOT) {
        bytes::the_last_is_found(seq![], DOT, name.drop_first());
        assert(Seq::<u8>::empty().push(DOT) + name.drop_first() =~= name);
    } else {
        bytes::the_last_is_found(seq![], DOT, name);
    }
}

/// What a join gives, byte for byte: an absolute path as it is, and any other after the base with
/// one separator supplied where the base does not end in one. Nothing is put in front of a path
/// that is joined onto nothing.
pub proof fn a_join_is_byte_for_byte(base: Seq<u8>, other: Seq<u8>)
    ensures
        other.len() > 0 && other[0] == MAIN_SEPARATOR_BYTE ==> path::join_of(base, other) == other,
        other.len() == 0 || other[0] != MAIN_SEPARATOR_BYTE ==> path::join_of(base, other) == (
        if base.len() == 0 {
            other
        } else if base.last() == MAIN_SEPARATOR_BYTE {
            base + other
        } else {
            base.push(MAIN_SEPARATOR_BYTE) + other
        }),
{
    assert(Seq::<u8>::empty() + other =~= other);
    assert(base + path::root() =~= base.push(MAIN_SEPARATOR_BYTE));
    if base.len() == 0 {
        assert(base + other =~= other);
    }
}

/// Several components are joined on one after the other.
pub proof fn joins_are_made_in_turn(base: Seq<u8>, parts: Seq<Seq<u8>>, part: Seq<u8>)
    ensures
        path::join_all_of(base, Seq::empty()) == base,
        path::join_all_of(base, parts.push(part)) == path::join_of(
            path::join_all_of(base, parts),
            part,
        ),
{
    assert(parts.push(part).drop_last() =~= parts);
}

/// Dropping the final component leaves what stands before the separator in front of it, byte for
/// byte, however many separators follow it; the root for a name in the root, and nothing for a name
/// alone. There is nothing to drop from separators alone.
#[verifier::spinoff_prover]
pub proof fn a_pop_is_byte_for_byte(dir: Seq<u8>, name: Seq<u8>, n: nat)
    requires
        name.len() > 0,
        !name.contains(MAIN_SEPARATOR_BYTE),
    ensures
        ({
            let seps = Seq::new(n, |i: int| MAIN_SEPARATOR_BYTE);
            &&& path::pop_of(dir.push(MAIN_SEPARATOR_BYTE) + name + seps) == Some(
                if dir.len() == 0 {
                    seq![MAIN_SEPARATOR_BYTE]
                } else {
                    dir
                },
            )
            &&& path::pop_of(name + seps) == Some(Seq::<u8>::empty())
            &&& path::pop_of(seps) is None
        }),
{
    let seps = Seq::new(n, |i: int| MAIN_SEPARATOR_BYTE);
    let named = dir.push(MAIN_SEPARATOR_BYTE) + name;
    assert(name.contains(name.last()));
    assert(named.last() == name.last());
    bytes::separators_are_trimmed_off_the_end(named, MAIN_SEPARATOR_BYTE, n);
    bytes::separators_are_trimmed_off_the_end(name, MAIN_SEPARATOR_BYTE, n);
    bytes::separators_are_trimmed_off_the_end(seq![], MAIN_SEPARATOR_BYTE, n);
    assert(Seq::<u8>::empty() + seps =~= seps);
    bytes::the_last_is_found(dir, MAIN_SEPARATOR_BYTE, name);
    assert((named + seps).take(dir.len() as int) =~= dir);
}

/// Replacing the final component leaves what stands before it, byte for byte, and puts the new one
/// after it as a join does; where there is none to replace the new one is joined on.
pub proof fn a_name_is_replaced_byte_for_byte(
    dir: Seq<u8>,
    name: Seq<u8>,
    n: nat,
    other: Seq<u8>,
)
    requires
        name.len() > 0,
        !name.contains(MAIN_SEPARATOR_BYTE),
    ensures
        ({
            let seps = Seq::new(n, |i: int| MAIN_SEPARATOR_BYTE);
            &&& path::set_file_name_of(dir.push(MAIN_SEPARATOR_BYTE) + name + seps, other)
                == path::join_of(
                if dir.len() == 0 {
                    seq![MAIN_SEPARATOR_BYTE]
                } else {
                    dir
                },
                other,
            )
            &&& path::set_file_name_of(name + seps, other) == other
            &&& path::set_file_name_of(seps, other) == path::join_of(seps, other)
        }),
{
    a_pop_is_byte_for_byte(dir, name, n);
    a_join_is_byte_for_byte(seq![], other);
}

/// Setting an extension replaces the old one, with its dot, by a dot and all of the new one, dots
/// in it or not; an empty one leaves the stem alone. What stands before is kept, byte for byte.
#[verifier::spinoff_prover]
pub proof fn an_extension_is_replaced_byte_for_byte(
    dir: Seq<u8>,
    stem: Seq<u8>,
    old_ext: Seq<u8>,
    ext: Seq<u8>,
)
    requires
        dir.len() == 0 || dir.last() == MAIN_SEPARATOR_BYTE,
        stem.len() > 0,
        !stem.contains(MAIN_SEPARATOR_BYTE),
        !old_ext.contains(MAIN_SEPARATOR_BYTE),
        !old_ext.contains(DOT),
    ensures
        path::set_extension_of(dir + (stem.push(DOT) + old_ext), ext) == (if ext.len() > 0 {
            dir + stem + (seq![DOT] + ext)
        } else {
            dir + stem
        }),
{
    let name = stem.push(DOT) + old_ext;
    let p = dir + name;
    lemma_no_separator(stem, old_ext);
    the_final_component(dir, name);
    bytes::the_last_is_found(stem, DOT, old_ext);
    assert(p.skip(dir.len() as int) =~= name);
    assert(p.take(dir.len() + stem.len() as int) =~= dir + stem);
    assert((dir + stem).push(DOT) + ext =~= dir + stem + (seq![DOT] + ext));
}

/// Setting an extension where there is none adds a dot and all of it, dots in it or not, after what
/// is there, byte for byte; an empty one changes nothing.
#[verifier::spinoff_prover]
pub proof fn an_extension_is_added_byte_for_byte(dir: Seq<u8>, name: Seq<u8>, ext: Seq<u8>)
    requires
        dir.len() == 0 || dir.last() == MAIN_SEPARATOR_BYTE,
        !name.contains(MAIN_SEPARATOR_BYTE),
        !name.contains(DOT) || (name[0] == DOT && !name.drop_first().contains(DOT)),
    ensures
        path::set_extension_of(dir + name, ext) == (if ext.len() > 0 {
            dir + name + (seq![DOT] + ext)
        } else {
            dir + name
        }),
{
    the_final_component(dir, name);
    lemma_plain(name);
    assert((dir + name).skip(dir.len() as int) =~= name);
    assert((dir + name).push(DOT) + ext =~= dir + name + (seq![DOT] + ext));
}

/// The name with an extension is the old stem, a dot and all of the extension, and stands where it
/// stood, for every extension without a separator; an empty extension leaves the stem.
#[verifier::spinoff_prover]
pub proof fn the_whole_extension_is_set(p: Seq<u8>, ext: Seq<u8>)
    requires
        path::file_name_of(p) is Some,
        !ext.contains(MAIN_SEPARATOR_BYTE),
    ensures
        path::file_name_of(path::set_extension_of(p, ext)) == Some(
            if ext.len() > 0 {
                path::file_stem_of(p)->0.push(DOT) + ext
            } else {
                path::file_stem_of(p)->0
            },
        ),
        path::parent_of(path::set_extension_of(p, ext)) == path::parent_of(p),
{
    let start = path::name_start_of(p);
    let dir = p.take(start);
    let name = p.skip(start);
    let stem = path::file_stem_of(p)->0;
    bytes::lemma_last_of(p, MAIN_SEPARATOR_BYTE);
    bytes::lemma_last_of(name, DOT);
    assert forall|j: int| 0 <= j < stem.len() implies stem[j] != MAIN_SEPARATOR_BYTE by {
        assert(stem[j] == p[start + j]);
    }
    assert(dir.len() == 0 || dir.last() == MAIN_SEPARATOR_BYTE);
    let out = path::set_extension_of(p, ext);
    let new = if ext.len() > 0 {
        stem.push(DOT) + ext
    } else {
        stem
    };
    if ext.len() > 0 {
        lemma_no_separator(stem, ext);
    }
    assert(stem.len() > 0);
    assert(out =~= dir + new);
    the_final_component(dir, new);
    if start > 0 {
        let front = dir.drop_last();
        the_parent(front, new);
        assert(front.push(MAIN_SEPARATOR_BYTE) + new =~= out);
        assert(front =~= p.take(start - 1));
    } else {
        the_parent(dir, new);
        assert(out =~= new);
    }
}

/// The components are the root, where the path begins with a separator, and then the parts; the
/// parts are what stands between separators, one after the other, without the empty ones.
pub proof fn the_root_and_the_parts(front: Seq<u8>, name: Seq<u8>, p: Seq<u8>)
    requires
        !name.contains(MAIN_SEPARATOR_BYTE),
    ensures
        path::parts_of(front.push(MAIN_SEPARATOR_BYTE) + name) == (if name.len() > 0 {
            path::parts_of(front).push(name)
        } else {
            path::parts_of(front)
        }),
        path::parts_of(name) == (if name.len() > 0 {
            seq![name]
        } else {
            Seq::<Seq<u8>>::empty()
        }),
        path::components_of(p) == (if p.len() > 0 && p[0] == MAIN_SEPARATOR_BYTE {
            seq![seq![MAIN_SEPARATOR_BYTE]] + path::parts_of(p)
        } else {
            path::parts_of(p)
        }),
{
    bytes::fields_read_back(front, name, MAIN_SEPARATOR_BYTE);
}

/// What is left after some parts is the end of the path, does not begin with a separator, and holds
/// the parts that follow.
proof fn lemma_after_parts(p: Seq<u8>, n: nat)
    requires
        n <= path::parts_of(p).len(),
    ensures
        bytes::ends(p, path::after_parts(p, n)),
        !path::absolute_of(path::after_parts(p, n)),
        path::parts_of(path::after_parts(p, n)) == path::parts_of(p).skip(n as int),
    decreases n,
{
    if n == 0 {
        lemma_trim(p);
        assert(path::parts_of(p).skip(0) =~= path::parts_of(p));
    } else {
        lemma_after_parts(p, (n - 1) as nat);
        let t = path::after_parts(p, (n - 1) as nat);
        let run = bytes::until(t, MAIN_SEPARATOR_BYTE);
        let rest = t.skip(run.len() as int);
        bytes::lemma_first_of(t, MAIN_SEPARATOR_BYTE);
        lemma_trim(rest);
        let end = path::after_parts(p, n);
        assert(path::parts_of(t).len() > 0);
        assert(t.len() > 0);
        assert(path::parts_of(t) == seq![run] + path::parts_of(rest));
        assert(path::parts_of(p).skip(n as int) =~= path::parts_of(t).skip(1));
        assert(path::parts_of(t).skip(1) =~= path::parts_of(rest));
        assert(p.skip(p.len() - end.len()) =~= t.skip(t.len() - end.len()));
        assert(t.skip(t.len() - end.len()) =~= rest.skip(rest.len() - end.len()));
    }
}

/// Without the separators it begins with a path has the same parts, and is the end of what it was.
pub(crate) proof fn lemma_trim(p: Seq<u8>)
    ensures
        bytes::ends(p, bytes::trim_start(p, MAIN_SEPARATOR_BYTE)),
        !path::absolute_of(bytes::trim_start(p, MAIN_SEPARATOR_BYTE)),
        path::parts_of(bytes::trim_start(p, MAIN_SEPARATOR_BYTE)) == path::parts_of(p),
    decreases p.len(),
{
    let t = bytes::trim_start(p, MAIN_SEPARATOR_BYTE);
    if path::absolute_of(p) {
        lemma_trim(p.drop_first());
        assert(p.skip(p.len() - t.len()) =~= p.drop_first().skip(p.len() - 1 - t.len()));
    } else {
        assert(p.skip(0) =~= p);
    }
}

/// A prefix is stripped exactly where the path starts with it. What is left is the end of the path,
/// byte for byte, from the component that follows the prefix: it holds the components that follow
/// and does not begin with a separator, unless nothing was stripped.
pub proof fn what_is_left_follows_the_prefix(p: Seq<u8>, prefix: Seq<u8>)
    ensures
        path::strip_prefix_of(p, prefix) is Some <==> path::starts_with_of(p, prefix),
        path::strip_prefix_of(p, prefix) matches Some(rest) ==> {
            &&& exists|front: Seq<u8>| #[trigger] (front + rest) == p
            &&& path::components_of(rest) == path::components_of(p).skip(
                path::components_of(prefix).len() as int,
            )
            &&& path::components_of(prefix).len() > 0 ==> rest.len() == 0 || rest[0]
                != MAIN_SEPARATOR_BYTE
            &&& path::components_of(prefix).len() == 0 ==> rest == p
        },
{
    if path::starts_with_of(p, prefix) {
        let n = path::components_of(prefix).len();
        let rest = path::strip_prefix_of(p, prefix)->0;
        let all = path::components_of(p);
        if n == 0 {
            assert(Seq::<u8>::empty() + rest =~= p);
            assert(all.skip(0) =~= all);
        } else {
            let m: nat = if path::absolute_of(p) {
                (n - 1) as nat
            } else {
                n
            };
            lemma_after_parts(p, m);
            let front = p.take(p.len() - rest.len());
            assert(front + rest =~= p);
            assert(all.skip(n as int) =~= path::parts_of(p).skip(m as int));
        }
    }
}

/// What reads as a path are its bytes, all of them: those of the path, of the text or of the bytes
/// themselves.
pub proof fn what_reads_as_a_path(
    p: path::Path<'_>,
    b: path::PathBuf,
    c: path::Component<'_>,
    s: &str,
    t: String,
    v: Vec<u8>,
    bytes: &[u8],
)
    ensures
        p.path_bytes() == p@,
        b.path_bytes() == b@,
        c.path_bytes() == c.name(),
        s.path_bytes() == utf8::encode_utf8(s@),
        t.path_bytes() == utf8::encode_utf8(t@),
        v.path_bytes() == v@,
        bytes.path_bytes() == bytes@,
{
}


/// Bytes in an array read as themselves, and a reference as what it refers to.
pub proof fn what_reads_as_a_path_through_a_reference<T: AsPath + ?Sized, const N: usize>(
    a: [u8; N],
    t: &T,
)
    ensures
        a.path_bytes() == a@,
        (&t).path_bytes() == t.path_bytes(),
{
}

} // verus!
