//! Sorted sequences without repeats: the ordered sets and maps that the
//! decoders report, kept in order as they are filled.
use vstd::prelude::*;
use crate::text::{chars_of, compare_names, lemma_name_less_total, lemma_name_less_transitive, name_less, slice_eq};

verus! {

/// Strictly increasing in [`name_less`] order, so each name occurs once.
pub open spec fn sorted_names(s: Seq<Seq<char>>) -> bool {
    forall|i: int, j: int| 0 <= i < j < s.len() ==> name_less(#[trigger] s[i], #[trigger] s[j])
}

/// Number of leading names that precede `name`.
pub open spec fn name_position(s: Seq<Seq<char>>, name: Seq<char>) -> nat
    decreases s.len(),
{
    if s.len() > 0 && name_less(s[0], name) {
        1 + name_position(s.drop_first(), name)
    } else {
        0
    }
}

/// `name` is among the names, at its position in order.
pub open spec fn has_name(s: Seq<Seq<char>>, name: Seq<char>) -> bool {
    name_position(s, name) < s.len() && s[name_position(s, name) as int] == name
}

/// The names with `name` added in its place, unless it is there already.
pub open spec fn insert_name(s: Seq<Seq<char>>, name: Seq<char>) -> Seq<Seq<char>> {
    if has_name(s, name) {
        s
    } else {
        s.insert(name_position(s, name) as int, name)
    }
}

pub proof fn lemma_name_position(s: Seq<Seq<char>>, name: Seq<char>)
    ensures
        name_position(s, name) <= s.len(),
        forall|k: int| 0 <= k < name_position(s, name) ==> name_less(#[trigger] s[k], name),
        name_position(s, name) < s.len() ==> !name_less(s[name_position(s, name) as int], name),
    decreases s.len(),
{
    if s.len() > 0 && name_less(s[0], name) {
        lemma_name_position(s.drop_first(), name);
        assert forall|k: int| 0 <= k < name_position(s, name) implies name_less(
            #[trigger] s[k],
            name,
        ) by {
            if k > 0 {
                assert(s[k] == s.drop_first()[k - 1]);
            }
        }
    }
}

/// Adding a name keeps the names sorted, each once, and holds exactly the
/// old names and the new one.
pub proof fn lemma_insert_name(s: Seq<Seq<char>>, name: Seq<char>)
    requires
        sorted_names(s),
    ensures
        sorted_names(insert_name(s, name)),
        insert_name(s, name).contains(name),
        forall|x: Seq<char>| #[trigger] insert_name(s, name).contains(x) <==> (s.contains(x) || x
            == name),
        has_name(s, name) <==> s.contains(name),
{
    lemma_name_position(s, name);
    let i = name_position(s, name) as int;
    if i < s.len() {
        lemma_name_less_total(s[i], name);
    }
    if s.contains(name) {
        let k = choose|k: int| 0 <= k < s.len() && s[k] == name;
        if k < i {
            crate::text::lemma_name_less_irreflexive(name);
        } else if k > i {
            assert(name_less(s[i], s[k]));
            if name_less(name, s[i]) {
                lemma_name_less_transitive(name, s[i], s[k]);
                crate::text::lemma_name_less_irreflexive(name);
            }
        }
        assert(has_name(s, name));
    }
    if !has_name(s, name) {
        let t = s.insert(i, name);
        assert forall|a: int, b: int| 0 <= a < b < t.len() implies name_less(
            #[trigger] t[a],
            #[trigger] t[b],
        ) by {
            if b < i {
                assert(t[a] == s[a] && t[b] == s[b]);
            } else if b == i {
                assert(t[a] == s[a]);
            } else if a == i {
                assert(t[b] == s[b - 1]);
                if b - 1 > i {
                    assert(name_less(s[i], s[b - 1]));
                    lemma_name_less_transitive(name, s[i], s[b - 1]);
                }
            } else if a < i {
                assert(t[a] == s[a] && t[b] == s[b - 1]);
            } else {
                assert(t[a] == s[a - 1] && t[b] == s[b - 1]);
            }
        }
        assert(t[i] == name);
        assert forall|x: Seq<char>| #[trigger] t.contains(x) <==> (s.contains(x) || x == name) by {
            if s.contains(x) {
                let k = choose|k: int| 0 <= k < s.len() && s[k] == x;
                if k < i {
                    assert(t[k] == x);
                } else {
                    assert(t[k + 1] == x);
                }
            }
            if t.contains(x) {
                let k = choose|k: int| 0 <= k < t.len() && t[k] == x;
                if k < i {
                    assert(s[k] == x);
                } else if k > i {
                    assert(s[k - 1] == x);
                }
            }
        }
    } else {
        assert(s[i] == name);
    }
}

/// The position of `name` among sorted names, and whether it is there.
pub fn find_name(v: &Vec<String>, name: &[char]) -> (r: (usize, bool))
    ensures
        r.0 == name_position(strings_view(v@), name@),
        r.1 == has_name(strings_view(v@), name@),
{
    let ghost s = strings_view(v@);
    let mut i: usize = 0;
    assert(s.skip(0) =~= s);
    while i < v.len() && compare_names(chars_of(v[i].as_str()).as_slice(), name)
        invariant
            0 <= i <= v.len(),
            s == strings_view(v@),
            name_position(s, name@) == i + name_position(s.skip(i as int), name@),
        decreases v.len() - i,
    {
        assert(s.skip(i as int).drop_first() =~= s.skip(i + 1));
        assert(s.skip(i as int)[0] == s[i as int]);
        i = i + 1;
    }
    if i < v.len() {
        assert(s.skip(i as int)[0] == s[i as int]);
    }
    let found = i < v.len() && slice_eq(chars_of(v[i].as_str()).as_slice(), name);
    (i, found)
}

/// The characters of each string.
pub open spec fn strings_view(v: Seq<String>) -> Seq<Seq<char>> {
    v.map_values(|s: String| s@)
}

/// Strictly increasing, so each number occurs once.
pub open spec fn sorted_u32(s: Seq<u32>) -> bool {
    forall|i: int, j: int| 0 <= i < j < s.len() ==> #[trigger] s[i] < #[trigger] s[j]
}

/// Number of leading numbers below `x`.
pub open spec fn u32_position(s: Seq<u32>, x: u32) -> nat
    decreases s.len(),
{
    if s.len() > 0 && s[0] < x {
        1 + u32_position(s.drop_first(), x)
    } else {
        0
    }
}

/// The numbers with `x` added in its place, unless it is there already.
pub open spec fn insert_u32(s: Seq<u32>, x: u32) -> Seq<u32> {
    if s.contains(x) {
        s
    } else {
        s.insert(u32_position(s, x) as int, x)
    }
}

/// Adds `x` to sorted numbers, keeping them sorted and each once.
pub fn add_u32(v: &mut Vec<u32>, x: u32)
    requires
        sorted_u32(old(v)@),
    ensures
        sorted_u32(final(v)@),
        final(v)@ == insert_u32(old(v)@, x),
        forall|y: u32| #[trigger] final(v)@.contains(y) <==> (old(v)@.contains(y) || y == x),
{
    let ghost s = v@;
    let mut i: usize = 0;
    assert(s.skip(0) =~= s);
    while i < v.len() && v[i] < x
        invariant
            0 <= i <= v.len(),
            s == v@,
            sorted_u32(v@),
            forall|k: int| 0 <= k < i ==> v@[k] < x,
            u32_position(s, x) == i + u32_position(s.skip(i as int), x),
        decreases v.len() - i,
    {
        assert(s.skip(i as int).drop_first() =~= s.skip(i + 1));
        assert(s.skip(i as int)[0] == s[i as int]);
        i = i + 1;
    }
    if i < v.len() {
        assert(s.skip(i as int)[0] == s[i as int]);
    }
    assert(u32_position(s, x) == i);
    if i < v.len() && v[i] == x {
        assert(v@.contains(x));
        return;
    }
    proof {
        assert forall|k: int| i <= k < v@.len() implies x < v@[k] by {
            if k > i {
                assert(v@[i as int] < v@[k]);
            }
        }
        assert(!v@.contains(x)) by {
            if v@.contains(x) {
                let k = choose|k: int| 0 <= k < v@.len() && v@[k] == x;
                if k < i {
                } else {
                }
            }
        }
    }
    let ghost old_v = v@;
    v.insert(i, x);
    proof {
        assert forall|y: u32| #[trigger] v@.contains(y) <==> (old_v.contains(y) || y == x) by {
            if old_v.contains(y) {
                let k = choose|k: int| 0 <= k < old_v.len() && old_v[k] == y;
                if k < i {
                    assert(v@[k] == y);
                } else {
                    assert(v@[k + 1] == y);
                }
            }
            if v@.contains(y) {
                let k = choose|k: int| 0 <= k < v@.len() && v@[k] == y;
                if k < i {
                    assert(old_v[k] == y);
                } else if k > i {
                    assert(old_v[k - 1] == y);
                }
            }
            if y == x {
                assert(v@[i as int] == x);
            }
        }
        assert forall|a: int, b: int| 0 <= a < b < v@.len() implies #[trigger] v@[a] < #[trigger] v@[b] by {
            if b < i {
                assert(v@[a] == old_v[a] && v@[b] == old_v[b]);
            } else if b == i {
                assert(v@[a] == old_v[a]);
            } else if a == i {
                assert(v@[b] == old_v[b - 1]);
            } else if a < i {
                assert(v@[a] == old_v[a] && v@[b] == old_v[b - 1]);
            } else {
                assert(v@[a] == old_v[a - 1] && v@[b] == old_v[b - 1]);
            }
        }
    }
}

/// Nondecreasing in [`name_less`] order.
pub open spec fn nondecreasing_names(s: Seq<Seq<char>>) -> bool {
    forall|i: int, j: int| 0 <= i < j < s.len() ==> !name_less(#[trigger] s[j], #[trigger] s[i])
}

/// Sorts strings by their characters (the order of `String`'s `Ord`),
/// keeping repeats.
pub fn sort_names(v: &Vec<String>) -> (r: Vec<String>)
    ensures
        nondecreasing_names(strings_view(r@)),
        strings_view(r@).to_multiset() == strings_view(v@).to_multiset(),
        r.len() == v.len(),
{
    broadcast use vstd::seq_lib::to_multiset_build, vstd::seq_lib::to_multiset_insert, vstd::seq_lib::to_multiset_len;
    let ghost input = strings_view(v@);
    let mut out: Vec<String> = Vec::new();
    let mut i: usize = 0;
    assert(strings_view(out@) =~= Seq::<Seq<char>>::empty());
    assert(input.take(0) =~= Seq::<Seq<char>>::empty());
    while i < v.len()
        invariant
            0 <= i <= v.len(),
            input == strings_view(v@),
            out.len() == i,
            nondecreasing_names(strings_view(out@)),
            strings_view(out@).to_multiset() == input.take(i as int).to_multiset(),
        decreases v.len() - i,
    {
        let x = v[i].clone();
        let xc = chars_of(x.as_str());
        let ghost ov = strings_view(out@);
        let mut pos: usize = 0;
        while pos < out.len() && compare_names(chars_of(out[pos].as_str()).as_slice(), xc.as_slice())
            invariant
                0 <= pos <= out.len(),
                ov == strings_view(out@),
                xc@ == x@,
                forall|k: int| 0 <= k < pos ==> name_less(#[trigger] ov[k], x@),
            decreases out.len() - pos,
        {
            pos = pos + 1;
        }
        proof {
            assert forall|k: int| pos <= k < ov.len() implies !name_less(#[trigger] ov[k], x@) by {
                crate::text::lemma_name_less_total(ov[pos as int], x@);
                if k > pos && name_less(ov[k], x@) {
                    assert(!name_less(ov[k], ov[pos as int]));
                    crate::text::lemma_name_less_total(ov[k], ov[pos as int]);
                    if ov[k] != ov[pos as int] {
                        lemma_name_less_transitive(ov[pos as int], ov[k], x@);
                    }
                }
            }
        }
        out.insert(pos, x);
        proof {
            let t = strings_view(out@);
            assert(t =~= ov.insert(pos as int, x@));
            assert(input.take(i + 1) =~= input.take(i as int).push(input[i as int]));
            assert(x@ == input[i as int]);
            vstd::seq_lib::to_multiset_insert(ov, pos as int, x@);
            vstd::seq_lib::to_multiset_build(input.take(i as int), input[i as int]);
            assert forall|a: int, b: int| 0 <= a < b < t.len() implies !name_less(#[trigger] t[b], #[trigger] t[a]) by {
                if b < pos {
                    assert(t[a] == ov[a] && t[b] == ov[b]);
                } else if b == pos {
                    assert(t[a] == ov[a]);
                    crate::text::lemma_name_less_total(ov[a], x@);
                } else if a == pos {
                    assert(t[b] == ov[b - 1]);
                } else if a < pos {
                    assert(t[a] == ov[a] && t[b] == ov[b - 1]);
                    crate::text::lemma_name_less_total(ov[a], x@);
                    if name_less(ov[b - 1], ov[a]) {
                        lemma_name_less_transitive(ov[b - 1], ov[a], x@);
                    }
                } else {
                    assert(t[a] == ov[a - 1] && t[b] == ov[b - 1]);
                }
            }
        }
        i = i + 1;
    }
    assert(input.take(v.len() as int) =~= input);
    out
}

} // verus!
