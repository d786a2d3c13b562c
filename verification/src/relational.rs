//! Names of relational tables and of payload fields in their two spellings.
use vstd::prelude::*;
use crate::text::{chars_of, push_char};

verus! {

/// ASCII upper case of one character.
pub open spec fn ascii_upper(c: char) -> char {
    if 'a' <= c && c <= 'z' {
        ((c as u32) - 32) as char
    } else {
        c
    }
}

/// ASCII lower case of one character.
pub open spec fn ascii_lower(c: char) -> char {
    if 'A' <= c && c <= 'Z' {
        ((c as u32) + 32) as char
    } else {
        c
    }
}

fn to_upper(c: char) -> (r: char)
    ensures
        r == ascii_upper(c),
{
    if 'a' <= c && c <= 'z' {
        ((c as u8) - 32) as char
    } else {
        c
    }
}

fn to_lower(c: char) -> (r: char)
    ensures
        r == ascii_lower(c),
{
    if 'A' <= c && c <= 'Z' {
        ((c as u8) + 32) as char
    } else {
        c
    }
}

/// `snake_case` in upper camel case: the `_`-separated words, empty ones
/// dropped, each with its first character in ASCII upper case.
pub open spec fn spec_upper_camel(v: Seq<char>) -> Seq<char>
    decreases v.len(),
{
    if v.len() == 0 {
        Seq::empty()
    } else {
        let prev = spec_upper_camel(v.drop_last());
        let i = v.len() - 1;
        let c = v[i];
        if c == '_' {
            prev
        } else if i == 0 || v[i - 1] == '_' {
            prev.push(ascii_upper(c))
        } else {
            prev.push(c)
        }
    }
}

/// `UpperCamel` in snake case: each ASCII upper-case character in lower
/// case, with `_` before it unless it comes first.
pub open spec fn spec_snake(v: Seq<char>) -> Seq<char>
    decreases v.len(),
{
    if v.len() == 0 {
        Seq::empty()
    } else {
        let prev = spec_snake(v.drop_last());
        let i = v.len() - 1;
        let c = v[i];
        if 'A' <= c && c <= 'Z' {
            if i != 0 {
                prev.push('_').push(ascii_lower(c))
            } else {
                prev.push(ascii_lower(c))
            }
        } else {
            prev.push(c)
        }
    }
}

pub fn snake_to_upper_camel(value: &str) -> (r: String)
    ensures
        r@ == spec_upper_camel(value@),
{
    let v = chars_of(value);
    let mut out = String::new();
    let mut i: usize = 0;
    assert(v@.take(0) =~= Seq::<char>::empty());
    while i < v.len()
        invariant
            0 <= i <= v.len(),
            v@ == value@,
            out@ == spec_upper_camel(v@.take(i as int)),
        decreases v.len() - i,
    {
        let c = v[i];
        let ghost t = v@.take(i + 1);
        assert(t.drop_last() =~= v@.take(i as int));
        assert(t[i as int] == c);
        if i > 0 {
            assert(t[i - 1] == v@[i - 1]);
        }
        if c != '_' {
            if i == 0 || v[i - 1] == '_' {
                push_char(&mut out, to_upper(c));
            } else {
                push_char(&mut out, c);
            }
        }
        i = i + 1;
    }
    assert(v@.take(v.len() as int) =~= v@);
    out
}

pub fn upper_camel_to_snake(value: &str) -> (r: String)
    ensures
        r@ == spec_snake(value@),
{
    let v = chars_of(value);
    let mut out = String::new();
    let mut i: usize = 0;
    assert(v@.take(0) =~= Seq::<char>::empty());
    while i < v.len()
        invariant
            0 <= i <= v.len(),
            v@ == value@,
            out@ == spec_snake(v@.take(i as int)),
        decreases v.len() - i,
    {
        let c = v[i];
        let ghost t = v@.take(i + 1);
        assert(t.drop_last() =~= v@.take(i as int));
        assert(t[i as int] == c);
        if 'A' <= c && c <= 'Z' {
            if i != 0 {
                push_char(&mut out, '_');
            }
            push_char(&mut out, to_lower(c));
        } else {
            push_char(&mut out, c);
        }
        i = i + 1;
    }
    assert(v@.take(v.len() as int) =~= v@);
    out
}

/// What `heck`'s `to_snake_case` gives for a string.
pub uninterp spec fn heck_snake_case(s: Seq<char>) -> Seq<char>;

/// `heck::ToSnakeCase::to_snake_case`: the result is named, as a function
/// of the input, by [`heck_snake_case`].
#[verifier::external_body]
fn to_snake_case(s: &str) -> (r: String)
    ensures
        r@ == heck_snake_case(s@),
{
    heck::ToSnakeCase::to_snake_case(s)
}

/// The table name of a relation: its root message in snake case, then
/// `_` and each path segment in snake case, but for the segments that
/// name a oneof group (`oneof_group[i]`), which add nothing.
pub open spec fn spec_table_name(root: Seq<char>, path: Seq<Seq<char>>, oneof_group: Seq<bool>) -> Seq<char>
    decreases path.len(),
{
    if path.len() == 0 {
        heck_snake_case(root)
    } else {
        let prev = spec_table_name(root, path.drop_last(), oneof_group.drop_last());
        if oneof_group.last() {
            prev
        } else {
            prev + "_"@ + heck_snake_case(path.last())
        }
    }
}

pub fn table_name(root: &str, path: &Vec<String>, oneof_group: &Vec<bool>) -> (r: String)
    requires
        path.len() == oneof_group.len(),
    ensures
        r@ == spec_table_name(root@, crate::sorted::strings_view(path@), oneof_group@),
{
    let ghost pv = crate::sorted::strings_view(path@);
    let mut name = to_snake_case(root);
    let mut i: usize = 0;
    assert(pv.take(0) =~= Seq::<Seq<char>>::empty());
    assert(oneof_group@.take(0) =~= Seq::<bool>::empty());
    while i < path.len()
        invariant
            0 <= i <= path.len(),
            path.len() == oneof_group.len(),
            pv == crate::sorted::strings_view(path@),
            name@ == spec_table_name(root@, pv.take(i as int), oneof_group@.take(i as int)),
        decreases path.len() - i,
    {
        assert(pv.take(i + 1).drop_last() =~= pv.take(i as int));
        assert(oneof_group@.take(i + 1).drop_last() =~= oneof_group@.take(i as int));
        assert(pv.take(i + 1).last() == path@[i as int]@);
        if !oneof_group[i] {
            push_char(&mut name, '_');
            let segment = to_snake_case(path[i].as_str());
            crate::text::append(&mut name, segment.as_str());
            proof {
                reveal_strlit("_");
            }
            assert(name@ =~= spec_table_name(root@, pv.take(i + 1), oneof_group@.take(i + 1)));
        }
        i = i + 1;
    }
    assert(pv.take(path.len() as int) =~= pv);
    assert(oneof_group@.take(path.len() as int) =~= oneof_group@);
    name
}

/// A field name in protobuf's snake case: starts with a lower-case ASCII
/// letter, has no upper-case ASCII letter, and every `_` is followed by a
/// lower-case ASCII letter.
pub open spec fn proto_snake_name(s: Seq<char>) -> bool {
    &&& s.len() > 0
    &&& 'a' <= s[0] && s[0] <= 'z'
    &&& forall|i: int| 0 <= i < s.len() ==> !('A' <= #[trigger] s[i] && s[i] <= 'Z')
    &&& forall|i: int| 0 <= i < s.len() && #[trigger] s[i] == '_' ==> i + 1 < s.len() && 'a' <= s[i + 1] && s[i + 1] <= 'z'
}

proof fn lemma_upper_camel_nonempty(s: Seq<char>, n: int)
    requires
        1 <= n <= s.len(),
        s[0] != '_',
    ensures
        spec_upper_camel(s.take(n)).len() >= 1,
    decreases n,
{
    assert(s.take(n).drop_last() =~= s.take(n - 1));
    if n > 1 {
        lemma_upper_camel_nonempty(s, n - 1);
    } else {
        assert(s.take(1)[0] == s[0]);
    }
}

proof fn lemma_snake_of_upper_camel_prefix(s: Seq<char>, n: int)
    requires
        proto_snake_name(s),
        0 <= n <= s.len(),
    ensures
        spec_snake(spec_upper_camel(s.take(n))) == (if n > 0 && s[n - 1] == '_' {
            s.take(n - 1)
        } else {
            s.take(n)
        }),
    decreases n,
{
    if n > 0 {
        lemma_snake_of_upper_camel_prefix(s, n - 1);
        let t = s.take(n);
        assert(t.drop_last() =~= s.take(n - 1));
        assert(t[n - 1] == s[n - 1]);
        if n >= 2 {
            assert(t[n - 2] == s[n - 2]);
        }
        let prev = spec_upper_camel(s.take(n - 1));
        let c = s[n - 1];
        assert(!('A' <= c && c <= 'Z'));
        if c == '_' {
            if n >= 2 {
                assert(s[n - 2] != '_') by {
                    if s[n - 2] == '_' {
                        assert('a' <= s[n - 1]);
                    }
                }
            }
        } else if n - 1 == 0 || s[n - 2] == '_' {
            assert('a' <= c && c <= 'z') by {
                if n - 1 > 0 {
                    assert(s[n - 2] == '_');
                }
            }
            let u = ascii_upper(c);
            assert('A' <= u && u <= 'Z');
            assert(ascii_lower(u) == c);
            let camel = prev.push(u);
            assert(camel.drop_last() =~= prev);
            assert(camel[camel.len() - 1] == u);
            if n - 1 > 0 {
                lemma_upper_camel_nonempty(s, n - 1);
                assert(s.take(n - 2).push('_').push(c) =~= s.take(n));
                assert(s.take(n - 1) =~= s.take(n - 2).push('_'));
            } else {
                assert(prev.len() == 0);
                assert(Seq::<char>::empty().push(c) =~= s.take(n));
            }
        } else {
            let camel = prev.push(c);
            assert(camel.drop_last() =~= prev);
            assert(s.take(n - 1).push(c) =~= s.take(n));
        }
    } else {
        assert(s.take(0) =~= Seq::<char>::empty());
    }
}

/// Snake case undoes upper camel case on protobuf field names: spelling a
/// field name in upper camel case and back gives the name again.
pub proof fn lemma_snake_undoes_upper_camel(s: Seq<char>)
    requires
        proto_snake_name(s),
    ensures
        spec_snake(spec_upper_camel(s)) == s,
{
    lemma_snake_of_upper_camel_prefix(s, s.len() as int);
    assert(s.take(s.len() as int) =~= s);
    assert(s[s.len() - 1] != '_') by {
        if s[s.len() - 1] == '_' {
            assert(s.len() - 1 + 1 < s.len());
        }
    }
}

} // verus!
