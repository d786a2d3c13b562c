//! Names of packs, sources and tables: lowercase ASCII words joined by one
//! separator, never a Windows device name.
use vstd::prelude::*;
use crate::text::{eq_str, name_less, compare_names, chars_of, lemma_name_less_total, lemma_name_less_transitive};
use crate::sorted::{find_name, lemma_insert_name, sorted_names, strings_view};

verus! {

pub open spec fn is_lower_or_digit(c: char) -> bool {
    ('a' <= c && c <= 'z') || ('0' <= c && c <= '9')
}

/// Nonempty words of lowercase ASCII letters and digits, joined by single
/// `sep` characters: what `name.split(sep)` gives as nonempty segments of
/// such characters only.
pub open spec fn segmented(name: Seq<char>, sep: char) -> bool {
    &&& name.len() > 0
    &&& forall|i: int| 0 <= i < name.len() ==> #[trigger] name[i] == sep || is_lower_or_digit(name[i])
    &&& name[0] != sep
    &&& name.last() != sep
    &&& forall|i: int| 0 <= i < name.len() - 1 ==> !(#[trigger] name[i] == sep && name[i + 1] == sep)
}

/// `con`, `prn`, `aux`, `nul`, or `com` / `lpt` followed by one digit
/// from 1 to 9.
pub open spec fn spec_is_windows_device_name(name: Seq<char>) -> bool {
    ||| name == "con"@
    ||| name == "prn"@
    ||| name == "aux"@
    ||| name == "nul"@
    ||| (name.len() == 4 && (name.take(3) == "com"@ || name.take(3) == "lpt"@) && '1' <= name[3]
        && name[3] <= '9')
}

pub open spec fn spec_valid_table_name(name: Seq<char>) -> bool {
    segmented(name, '_') && 'a' <= name[0] && name[0] <= 'z' && !spec_is_windows_device_name(name)
}

pub open spec fn spec_valid_pack_name(name: Seq<char>) -> bool {
    segmented(name, '-') && !spec_is_windows_device_name(name)
}

pub fn is_windows_device_name(name: &[char]) -> (r: bool)
    ensures
        r == spec_is_windows_device_name(name@),
{
    if eq_str(name, "con") || eq_str(name, "prn") || eq_str(name, "aux") || eq_str(name, "nul") {
        return true;
    }
    if name.len() != 4 {
        return false;
    }
    let head = &name[0..3];
    assert(head@ == name@.take(3));
    (eq_str(head, "com") || eq_str(head, "lpt")) && '1' <= name[3] && name[3] <= '9'
}

fn is_segmented(name: &[char], sep: char) -> (r: bool)
    ensures
        r == segmented(name@, sep),
{
    if name.len() == 0 || name[0] == sep || name[name.len() - 1] == sep {
        return false;
    }
    let mut i: usize = 0;
    while i < name.len()
        invariant
            0 < name.len(),
            0 <= i <= name.len(),
            forall|k: int| 0 <= k < i ==> #[trigger] name@[k] == sep || is_lower_or_digit(name@[k]),
            forall|k: int| 0 <= k < i && k < name.len() - 1 ==> !(#[trigger] name@[k] == sep && name@[k + 1] == sep),
        decreases name.len() - i,
    {
        let c = name[i];
        if !(c == sep || ('a' <= c && c <= 'z') || ('0' <= c && c <= '9')) {
            return false;
        }
        if i + 1 < name.len() && c == sep && name[i + 1] == sep {
            return false;
        }
        i = i + 1;
    }
    true
}

/// A table name: words of `[a-z0-9]` joined by `_`, starting with a letter.
pub fn valid_table_name(name: &[char]) -> (r: bool)
    ensures
        r == spec_valid_table_name(name@),
{
    is_segmented(name, '_') && 'a' <= name[0] && name[0] <= 'z' && !is_windows_device_name(name)
}

/// A pack name: words of `[a-z0-9]` joined by `-`.
pub fn valid_pack_name(name: &[char]) -> (r: bool)
    ensures
        r == spec_valid_pack_name(name@),
{
    is_segmented(name, '-') && !is_windows_device_name(name)
}

/// Why a binding is invalid.
#[derive(Debug)]
pub enum BindingError {
    InvalidPackName { name: String },
    InvalidSourceName { name: String },
    DuplicateBinding { pack: String, source_name: String },
    RelativeWorkingDirectory { path: String },
    EmptyMaterializedTables,
    InvalidTableName { name: String },
    DuplicateTableName { name: String },
}

/// The content of a [`BindingError`].
pub enum BindingErrorView {
    InvalidPackName { name: Seq<char> },
    InvalidSourceName { name: Seq<char> },
    DuplicateBinding { pack: Seq<char>, source_name: Seq<char> },
    RelativeWorkingDirectory { path: Seq<char> },
    EmptyMaterializedTables,
    InvalidTableName { name: Seq<char> },
    DuplicateTableName { name: Seq<char> },
}

impl View for BindingError {
    type V = BindingErrorView;

    open spec fn view(&self) -> BindingErrorView {
        match self {
            BindingError::InvalidPackName { name } => BindingErrorView::InvalidPackName { name: name@ },
            BindingError::InvalidSourceName { name } => BindingErrorView::InvalidSourceName { name: name@ },
            BindingError::DuplicateBinding { pack, source_name } => BindingErrorView::DuplicateBinding {
                pack: pack@,
                source_name: source_name@,
            },
            BindingError::RelativeWorkingDirectory { path } => BindingErrorView::RelativeWorkingDirectory { path: path@ },
            BindingError::EmptyMaterializedTables => BindingErrorView::EmptyMaterializedTables,
            BindingError::InvalidTableName { name } => BindingErrorView::InvalidTableName { name: name@ },
            BindingError::DuplicateTableName { name } => BindingErrorView::DuplicateTableName { name: name@ },
        }
    }
}

/// A pack must have a valid pack name; a source a valid table name other
/// than `dataset` and `information_schema`.
pub open spec fn sp_binding_identity(pack: Seq<char>, source: Seq<char>) -> Result<(), BindingErrorView> {
    if !spec_valid_pack_name(pack) {
        Err(BindingErrorView::InvalidPackName { name: pack })
    } else if !spec_valid_table_name(source) || source == "dataset"@ || source == "information_schema"@ {
        Err(BindingErrorView::InvalidSourceName { name: source })
    } else {
        Ok(())
    }
}

pub fn validate_binding_identity(pack: &str, source: &str) -> (r: Result<(), BindingError>)
    ensures
        match r {
            Ok(()) => sp_binding_identity(pack@, source@) == Ok::<(), BindingErrorView>(()),
            Err(e) => sp_binding_identity(pack@, source@) == Err::<(), BindingErrorView>(e@),
        },
{
    let p = chars_of(pack);
    if !valid_pack_name(p.as_slice()) {
        return Err(BindingError::InvalidPackName { name: pack.to_owned() });
    }
    let s = chars_of(source);
    if !valid_table_name(s.as_slice()) || eq_str(s.as_slice(), "dataset") || eq_str(
        s.as_slice(),
        "information_schema",
    ) {
        return Err(BindingError::InvalidSourceName { name: source.to_owned() });
    }
    Ok(())
}

/// `x` is the least invalid table name among `names`.
pub open spec fn least_invalid(names: Seq<Seq<char>>, x: Seq<char>) -> bool {
    &&& names.contains(x)
    &&& !spec_valid_table_name(x)
    &&& forall|y: Seq<char>| #[trigger] names.contains(y) && !spec_valid_table_name(y) ==> y == x || name_less(x, y)
}

/// `x` occurs at least twice.
pub open spec fn repeated(names: Seq<Seq<char>>, x: Seq<char>) -> bool {
    exists|i: int, j: int| 0 <= i < j < names.len() && #[trigger] names[i] == x && #[trigger] names[j] == x
}

/// `x` is the least name that occurs at least twice.
pub open spec fn least_repeated(names: Seq<Seq<char>>, x: Seq<char>) -> bool {
    &&& repeated(names, x)
    &&& forall|y: Seq<char>| #[trigger] repeated(names, y) ==> y == x || name_less(x, y)
}

/// What validating the table names of a materialized source gives: there
/// must be at least one; the least invalid name is rejected first, then
/// the least repeated one; otherwise the names sorted, each once.
pub open spec fn table_names_outcome(names: Seq<Seq<char>>, r: Result<Seq<Seq<char>>, BindingErrorView>) -> bool {
    match r {
        Err(BindingErrorView::EmptyMaterializedTables) => names.len() == 0,
        Err(BindingErrorView::InvalidTableName { name }) => names.len() > 0 && least_invalid(names, name),
        Err(BindingErrorView::DuplicateTableName { name }) => {
            &&& names.len() > 0
            &&& (forall|y: Seq<char>| #[trigger] names.contains(y) ==> spec_valid_table_name(y))
            &&& least_repeated(names, name)
        },
        Ok(s) => {
            &&& names.len() > 0
            &&& (forall|y: Seq<char>| #[trigger] names.contains(y) ==> spec_valid_table_name(y))
            &&& (forall|y: Seq<char>| !repeated(names, y))
            &&& sorted_names(s)
            &&& forall|y: Seq<char>| #[trigger] s.contains(y) <==> names.contains(y)
        },
        _ => false,
    }
}

pub open spec fn names_result_view(r: Result<Vec<String>, BindingError>) -> Result<Seq<Seq<char>>, BindingErrorView> {
    match r {
        Ok(v) => Ok(strings_view(v@)),
        Err(e) => Err(e@),
    }
}

proof fn lemma_repeated_push(prefix: Seq<Seq<char>>, y: Seq<char>, x: Seq<char>)
    ensures
        repeated(prefix.push(y), x) <==> (repeated(prefix, x) || (x == y && prefix.contains(y))),
{
    let t = prefix.push(y);
    if repeated(t, x) {
        let (i, j) = choose|i: int, j: int| 0 <= i < j < t.len() && #[trigger] t[i] == x && #[trigger] t[j] == x;
        if j < prefix.len() {
            assert(prefix[i] == x && prefix[j] == x);
        } else {
            assert(prefix[i] == x);
        }
    }
    if repeated(prefix, x) {
        let (i, j) = choose|i: int, j: int| 0 <= i < j < prefix.len() && #[trigger] prefix[i] == x && #[trigger] prefix[j] == x;
        assert(t[i] == x && t[j] == x);
    }
    if x == y && prefix.contains(y) {
        let i = choose|i: int| 0 <= i < prefix.len() && prefix[i] == y;
        assert(t[i] == x && t[prefix.len() as int] == x);
    }
}

/// Validates and sorts the table names of a materialized source.
pub fn validate_materialized_table_names(names: &Vec<String>) -> (r: Result<Vec<String>, BindingError>)
    ensures
        table_names_outcome(strings_view(names@), names_result_view(r)),
{
    let ghost ns = strings_view(names@);
    if names.len() == 0 {
        return Err(BindingError::EmptyMaterializedTables);
    }
    let mut best: Option<usize> = None;
    let mut i: usize = 0;
    while i < names.len()
        invariant
            0 <= i <= names.len(),
            ns == strings_view(names@),
            match best {
                None => forall|k: int| 0 <= k < i ==> spec_valid_table_name(#[trigger] ns[k]),
                Some(b) => b < i && !spec_valid_table_name(ns[b as int]) && forall|k: int|
                    0 <= k < i && !spec_valid_table_name(#[trigger] ns[k]) ==> ns[k] == ns[b as int]
                        || name_less(ns[b as int], ns[k]),
            },
        decreases names.len() - i,
    {
        let c = chars_of(names[i].as_str());
        if !valid_table_name(c.as_slice()) {
            match best {
                None => {
                    best = Some(i);
                },
                Some(b) => {
                    let cb = chars_of(names[b].as_str());
                    if compare_names(c.as_slice(), cb.as_slice()) {
                        proof {
                            assert forall|k: int| 0 <= k < i + 1 && !spec_valid_table_name(#[trigger] ns[k]) implies ns[k] == ns[i as int] || name_less(ns[i as int], ns[k]) by {
                                if k < i && ns[k] != ns[b as int] {
                                    lemma_name_less_transitive(ns[i as int], ns[b as int], ns[k]);
                                }
                            }
                        }
                        best = Some(i);
                    } else {
                        proof {
                            lemma_name_less_total(ns[i as int], ns[b as int]);
                        }
                    }
                },
            }
        }
        i = i + 1;
    }
    match best {
        Some(b) => {
            proof {
                assert forall|y: Seq<char>| #[trigger] ns.contains(y) && !spec_valid_table_name(y) implies y == ns[b as int] || name_less(ns[b as int], y) by {
                    let k = choose|k: int| 0 <= k < ns.len() && ns[k] == y;
                    assert(!spec_valid_table_name(ns[k]));
                }
                assert(ns.contains(ns[b as int]));
            }
            return Err(BindingError::InvalidTableName { name: names[b].clone() });
        },
        None => {},
    }
    assert forall|y: Seq<char>| #[trigger] ns.contains(y) implies spec_valid_table_name(y) by {
        let k = choose|k: int| 0 <= k < ns.len() && ns[k] == y;
        assert(spec_valid_table_name(ns[k]));
    }
    let mut set: Vec<String> = Vec::new();
    let mut dup: Option<usize> = None;
    let mut j: usize = 0;
    assert(strings_view(set@) =~= Seq::<Seq<char>>::empty());
    assert(ns.take(0) =~= Seq::<Seq<char>>::empty());
    while j < names.len()
        invariant
            0 <= j <= names.len(),
            ns == strings_view(names@),
            sorted_names(strings_view(set@)),
            forall|y: Seq<char>| #[trigger] strings_view(set@).contains(y) <==> ns.take(j as int).contains(y),
            match dup {
                None => forall|y: Seq<char>| !repeated(ns.take(j as int), y),
                Some(d) => d < j && least_repeated(ns.take(j as int), ns[d as int]),
            },
        decreases names.len() - j,
    {
        let c = chars_of(names[j].as_str());
        let ghost prefix = ns.take(j as int);
        let ghost y = ns[j as int];
        assert(ns.take(j + 1) =~= prefix.push(y));
        let ghost sv = strings_view(set@);
        proof {
            lemma_insert_name(sv, y);
            crate::sorted::lemma_name_position(sv, y);
            assert forall|x: Seq<char>| #[trigger] repeated(ns.take(j + 1), x) <==> (repeated(prefix, x) || (x == y && prefix.contains(y))) by {
                lemma_repeated_push(prefix, y, x);
            }
        }
        let (pos, found) = find_name(&set, c.as_slice());
        if found {
            assert(sv.contains(y));
            assert(prefix.contains(y));
            proof {
                lemma_repeated_push(prefix, y, y);
            }
            assert(repeated(ns.take(j + 1), y));
            match dup {
                None => {
                    dup = Some(j);
                },
                Some(d) => {
                    let cd = chars_of(names[d].as_str());
                    if compare_names(c.as_slice(), cd.as_slice()) {
                        proof {
                            assert forall|x: Seq<char>| #[trigger] repeated(ns.take(j + 1), x) implies x == y || name_less(y, x) by {
                                if repeated(prefix, x) && x != ns[d as int] {
                                    lemma_name_less_transitive(y, ns[d as int], x);
                                }
                            }
                        }
                        dup = Some(j);
                    } else {
                        proof {
                            lemma_name_less_total(y, ns[d as int]);
                            assert(repeated(ns.take(j + 1), ns[d as int]));
                        }
                    }
                },
            }
        } else {
            proof {
                assert(!sv.contains(y));
            }
            set.insert(pos, names[j].clone());
            assert(strings_view(set@) =~= sv.insert(pos as int, y));
            proof {
                match dup {
                    None => {},
                    Some(d) => {
                        lemma_repeated_push(prefix, y, ns[d as int]);
                        assert(repeated(ns.take(j + 1), ns[d as int]));
                    },
                }
            }
        }
        proof {
            let t = ns.take(j + 1);
            assert(t[j as int] == y);
            assert forall|x: Seq<char>| #[trigger] strings_view(set@).contains(x) <==> t.contains(x) by {
                if t.contains(x) {
                    let k = choose|k: int| 0 <= k < t.len() && t[k] == x;
                    if k < j {
                        assert(prefix[k] == x);
                    }
                }
                if prefix.contains(x) {
                    let k = choose|k: int| 0 <= k < prefix.len() && prefix[k] == x;
                    assert(t[k] == x);
                }
            }
        }
        j = j + 1;
    }
    assert(ns.take(names.len() as int) =~= ns);
    match dup {
        Some(d) => Err(BindingError::DuplicateTableName { name: names[d].clone() }),
        None => Ok(set),
    }
}

/// The error that validating the table names of a materialized source
/// gives, if any.
pub open spec fn sp_table_error(names: Seq<Seq<char>>) -> Option<BindingErrorView> {
    if names.len() == 0 {
        Some(BindingErrorView::EmptyMaterializedTables)
    } else if exists|x: Seq<char>| #[trigger] names.contains(x) && !spec_valid_table_name(x) {
        Some(BindingErrorView::InvalidTableName { name: choose|x: Seq<char>| least_invalid(names, x) })
    } else if exists|x: Seq<char>| #[trigger] repeated(names, x) {
        Some(BindingErrorView::DuplicateTableName { name: choose|x: Seq<char>| least_repeated(names, x) })
    } else {
        None
    }
}

/// The outcome of validating table names is determined by the names: the
/// error is the one that [`sp_table_error`] gives.
pub proof fn lemma_table_outcome(names: Seq<Seq<char>>, r: Result<Seq<Seq<char>>, BindingErrorView>)
    requires
        table_names_outcome(names, r),
    ensures
        match r {
            Ok(_) => sp_table_error(names) is None,
            Err(e) => sp_table_error(names) == Some(e),
        },
{
    match r {
        Err(BindingErrorView::InvalidTableName { name }) => {
            let c = choose|x: Seq<char>| least_invalid(names, x);
            assert(least_invalid(names, c));
            if c != name {
                lemma_name_less_total(c, name);
            }
        },
        Err(BindingErrorView::DuplicateTableName { name }) => {
            assert(!exists|x: Seq<char>| #[trigger] names.contains(x) && !spec_valid_table_name(x));
            let c = choose|x: Seq<char>| least_repeated(names, x);
            assert(least_repeated(names, c));
            if c != name {
                lemma_name_less_total(c, name);
            }
        },
        _ => {},
    }
}

} // verus!
