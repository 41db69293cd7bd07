//! Key layout: how a namespace and a logical key name the physical entries of
//! the store.
//!
//! Three kinds of entry belong to a logical key `k` of namespace `ns`:
//!
//! * the primary entry `ns:k`, which holds the caller's value;
//! * the metadata entry `meta_ns:k`, a hash from index name to index value;
//! * one index set `idx_ns:name:value` for each pair of the metadata, with `k`
//!   among its members.
//!
//! The functions here are pure. A name is *plain* when it does not hold the
//! separator; the decomposition of a physical key gives back what it was made
//! of as long as the namespace (and, for an index set, the index name) is plain.
use vstd::prelude::*;

verus! {

/// The character that separates the parts of a physical key.
pub const SEPARATOR: char = ':';

/// What a metadata key starts with.
pub const META_PREFIX: &'static str = "meta_";

/// What the key of an index set starts with.
pub const INDEX_PREFIX: &'static str = "idx_";

/// The pattern that the keys of all index sets match.
pub const ALL_INDICES: &'static str = "idx_*";

/// The separator as a sequence of one character.
pub open spec fn separator() -> Seq<char> {
    seq![':']
}

/// The characters of [`META_PREFIX`].
pub open spec fn meta_prefix() -> Seq<char> {
    seq!['m', 'e', 't', 'a', '_']
}

/// The characters of [`INDEX_PREFIX`].
pub open spec fn index_prefix() -> Seq<char> {
    seq!['i', 'd', 'x', '_']
}

/// A name is plain when the separator does not occur in it.
pub open spec fn plain(name: Seq<char>) -> bool {
    !name.contains(':')
}

/// The physical key of the primary entry: `ns:key`.
pub open spec fn primary_key(namespace: Seq<char>, key: Seq<char>) -> Seq<char> {
    namespace + separator() + key
}

/// The physical key of the metadata entry: `meta_ns:key`.
pub open spec fn meta_key(namespace: Seq<char>, key: Seq<char>) -> Seq<char> {
    meta_prefix() + namespace + separator() + key
}

/// The physical key of an index set: `idx_ns:name:value`.
pub open spec fn index_key(namespace: Seq<char>, name: Seq<char>, value: Seq<char>) -> Seq<char> {
    index_prefix() + namespace + separator() + name + separator() + value
}

/// The physical key of the primary entry of `key` in `namespace`.
pub fn prefixed(namespace: &str, key: &str) -> (physical: String)
    ensures
        physical@ == primary_key(namespace@, key@),
{
    proof {
        reveal_strlit(":");
    }
    let mut physical = String::from_str(namespace);
    physical.append(":");
    physical.append(key);
    physical
}

/// The physical key of the metadata entry of `key` in `namespace`.
pub fn prefixed_meta(namespace: &str, key: &str) -> (physical: String)
    ensures
        physical@ == meta_key(namespace@, key@),
{
    proof {
        reveal_strlit(":");
        reveal_strlit("meta_");
        assert("meta_"@ =~= meta_prefix());
    }
    let mut physical = String::from_str(META_PREFIX);
    physical.append(namespace);
    physical.append(":");
    physical.append(key);
    physical
}

/// The physical key of the index set that holds the keys of `namespace` whose
/// index `idx` has the value `idx_val`.
pub fn prefixed_idx(namespace: &str, idx: &str, idx_val: &str) -> (physical: String)
    ensures
        physical@ == index_key(namespace@, idx@, idx_val@),
{
    proof {
        reveal_strlit(":");
        reveal_strlit("idx_");
        assert("idx_"@ =~= index_prefix());
    }
    let mut physical = String::from_str(INDEX_PREFIX);
    physical.append(namespace);
    physical.append(":");
    physical.append(idx);
    physical.append(":");
    physical.append(idx_val);
    physical
}

/// What stands before the first separator of `s`: all of `s` where it holds none.
pub open spec fn head(s: Seq<char>) -> Seq<char> {
    match s.index_of_first(':') {
        Some(at) => s.take(at),
        None => s,
    }
}

/// What stands behind the first separator of `s`, if it holds one.
pub open spec fn tail(s: Seq<char>) -> Option<Seq<char>> {
    match s.index_of_first(':') {
        Some(at) => Some(s.skip(at + 1)),
        None => None,
    }
}

/// The first two parts of a physical key, parted at the separator. A key with
/// no separator has no second part.
pub open spec fn namespace_and_key(physical: Seq<char>) -> Option<(Seq<char>, Seq<char>)> {
    match tail(physical) {
        Some(rest) => Some((head(physical), head(rest))),
        None => None,
    }
}

/// `at` is the place of the first separator of `s`, or the length of `s` where it
/// holds none.
pub open spec fn first_separator(s: Seq<char>, at: int) -> bool {
    &&& 0 <= at <= s.len()
    &&& at < s.len() ==> s[at] == ':'
    &&& forall|j: int| 0 <= j < at ==> s[j] != ':'
}

/// There is one first separator, and `index_of_first` names it.
pub proof fn first_separator_is_unique(s: Seq<char>, at: int)
    requires
        first_separator(s, at),
    ensures
        at < s.len() ==> s.index_of_first(':') == Some(at),
        at == s.len() ==> s.index_of_first(':') is None,
{
    s.index_of_first_ensures(':');
}

/// The place of the first separator of `s` from `from` on, or the length of `s`.
fn find_separator(s: &str, from: usize) -> (at: usize)
    requires
        from <= s@.len(),
    ensures
        from <= at <= s@.len(),
        first_separator(s@.skip(from as int), at - from),
{
    let len = s.unicode_len();
    let mut at = from;
    while at < len && s.get_char(at) != SEPARATOR
        invariant
            len == s@.len(),
            from <= at <= len,
            forall|j: int| from <= j < at ==> s@[j] != ':',
        decreases len - at,
    {
        at += 1;
    }
    at
}

/// Whether the separator does not occur in `name`. Callers that want the
/// physical keys to be taken apart again keep to such names.
pub fn is_plain(name: &str) -> (free: bool)
    ensures
        free == plain(name@),
{
    let at = find_separator(name, 0);
    proof {
        assert(name@.skip(0) =~= name@);
        if at < name@.len() {
            assert(name@.contains(name@[at as int]));
        }
    }
    at == name.unicode_len()
}

/// Parts a physical key into its namespace and its logical key: what stands
/// before the first separator, and what stands between the first and the
/// second (or the end). `None` where the key holds no separator.
pub fn split_namespace(key: &str) -> (parts: Option<(&str, &str)>)
    ensures
        match parts {
            Some((namespace, logical)) => namespace_and_key(key@) == Some((namespace@, logical@)),
            None => namespace_and_key(key@) is None,
        },
{
    let len = key.unicode_len();
    let first = find_separator(key, 0);
    proof {
        assert(key@.skip(0) =~= key@);
        first_separator_is_unique(key@, first as int);
    }
    if first == len {
        return None;
    }
    let second = find_separator(key, first + 1);
    proof {
        let rest = key@.skip(first + 1);
        first_separator_is_unique(rest, second - (first + 1));
        assert(rest.take(second - (first + 1)) =~= key@.subrange(first + 1, second as int));
        assert(key@.subrange(first + 1, len as int) =~= rest);
        assert(key@.take(first as int) =~= key@.subrange(0, first as int));
    }
    Some((key.substring_char(0, first), key.substring_char(first + 1, second)))
}

/// A physical key, taken apart: the entry of which kind, of which logical key
/// of which namespace.
#[derive(Debug, PartialEq, Eq)]
pub enum PhysicalKey {
    /// The primary entry of `key`.
    Primary { namespace: String, key: String },
    /// The metadata entry of `key`.
    Meta { namespace: String, key: String },
}

/// The mathematical value of a [`PhysicalKey`].
pub enum PhysicalKeyView {
    Primary { namespace: Seq<char>, key: Seq<char> },
    Meta { namespace: Seq<char>, key: Seq<char> },
}

impl View for PhysicalKey {
    type V = PhysicalKeyView;

    open spec fn view(&self) -> PhysicalKeyView {
        match self {
            PhysicalKey::Primary { namespace, key } => PhysicalKeyView::Primary {
                namespace: namespace@,
                key: key@,
            },
            PhysicalKey::Meta { namespace, key } => PhysicalKeyView::Meta {
                namespace: namespace@,
                key: key@,
            },
        }
    }
}

/// What a physical key names. A key that begins with the metadata prefix is
/// taken for a metadata key, any other for a primary key; the namespace and
/// the logical key are the two parts that follow. `None` where the key holds
/// no separator.
pub open spec fn classified(physical: Seq<char>) -> Option<PhysicalKeyView> {
    if meta_prefix().is_prefix_of(physical) {
        match namespace_and_key(physical.skip(meta_prefix().len() as int)) {
            Some((namespace, key)) => Some(PhysicalKeyView::Meta { namespace, key }),
            None => None,
        }
    } else {
        match namespace_and_key(physical) {
            Some((namespace, key)) => Some(PhysicalKeyView::Primary { namespace, key }),
            None => None,
        }
    }
}

/// The namespace of the key of an index set: what stands between the index
/// prefix and the first separator behind it. `None` where the key does not
/// begin with the prefix.
pub open spec fn namespace_of_index(physical: Seq<char>) -> Option<Seq<char>> {
    if index_prefix().is_prefix_of(physical) {
        Some(head(physical.skip(index_prefix().len() as int)))
    } else {
        None
    }
}

/// Whether `text` begins with `prefix`.
fn starts_with(text: &str, prefix: &str) -> (begins: bool)
    ensures
        begins == prefix@.is_prefix_of(text@),
{
    let len = prefix.unicode_len();
    if text.unicode_len() < len {
        return false;
    }
    let mut i: usize = 0;
    while i < len
        invariant
            len == prefix@.len(),
            len <= text@.len(),
            i <= len,
            forall|j: int| 0 <= j < i ==> text@[j] == prefix@[j],
        decreases len - i,
    {
        if text.get_char(i) != prefix.get_char(i) {
            assert(text@.subrange(0, len as int)[i as int] != prefix@[i as int]);
            return false;
        }
        i += 1;
    }
    assert(text@.subrange(0, len as int) =~= prefix@);
    true
}

/// Takes a physical key apart.
pub fn classify(physical: &str) -> (parts: Option<PhysicalKey>)
    ensures
        match parts {
            Some(named) => classified(physical@) == Some(named@),
            None => classified(physical@) is None,
        },
{
    proof {
        reveal_strlit("meta_");
        assert("meta_"@ =~= meta_prefix());
    }
    if starts_with(physical, META_PREFIX) {
        let rest = physical.substring_char(5, physical.unicode_len());
        assert(rest@ =~= physical@.skip(5));
        match split_namespace(rest) {
            Some((namespace, key)) => Some(
                PhysicalKey::Meta {
                    namespace: String::from_str(namespace),
                    key: String::from_str(key),
                },
            ),
            None => None,
        }
    } else {
        match split_namespace(physical) {
            Some((namespace, key)) => Some(
                PhysicalKey::Primary {
                    namespace: String::from_str(namespace),
                    key: String::from_str(key),
                },
            ),
            None => None,
        }
    }
}

/// The namespace that the key of an index set belongs to.
pub fn index_namespace(physical: &str) -> (namespace: Option<String>)
    ensures
        match namespace {
            Some(name) => namespace_of_index(physical@) == Some(name@),
            None => namespace_of_index(physical@) is None,
        },
{
    proof {
        reveal_strlit("idx_");
        assert("idx_"@ =~= index_prefix());
    }
    if !starts_with(physical, INDEX_PREFIX) {
        return None;
    }
    let rest = physical.substring_char(4, physical.unicode_len());
    assert(rest@ =~= physical@.skip(4));
    let end = find_separator(rest, 0);
    proof {
        assert(rest@.skip(0) =~= rest@);
        first_separator_is_unique(rest@, end as int);
        assert(rest@.take(end as int) =~= rest@.subrange(0, end as int));
        assert(rest@.subrange(0, rest@.len() as int) =~= rest@);
    }
    Some(String::from_str(rest.substring_char(0, end)))
}

/// The characters of [`ALL_INDICES`].
pub open spec fn all_indices() -> Seq<char> {
    index_prefix() + seq!['*']
}

/// The pattern that the keys of the index sets of `namespace` match.
pub open spec fn index_pattern(namespace: Seq<char>) -> Seq<char> {
    index_prefix() + namespace + separator() + seq!['*']
}

/// The pattern that the keys of the index sets of `namespace` match.
pub fn pattern_of(namespace: &str) -> (pattern: String)
    ensures
        pattern@ == index_pattern(namespace@),
{
    proof {
        reveal_strlit("idx_");
        reveal_strlit(":*");
        assert("idx_"@ =~= index_prefix());
        assert(":*"@ =~= separator() + seq!['*']);
    }
    let mut pattern = String::from_str(INDEX_PREFIX);
    pattern.append(namespace);
    pattern.append(":*");
    assert(pattern@ =~= index_pattern(namespace@));
    pattern
}

/// Behind a plain name and a separator, the first separator is the one that
/// was put there.
pub proof fn parts_of_joined(first: Seq<char>, rest: Seq<char>)
    requires
        plain(first),
    ensures
        head(first + separator() + rest) == first,
        tail(first + separator() + rest) == Some(rest),
{
    let joined = first + separator() + rest;
    assert forall|j: int| 0 <= j < first.len() implies joined[j] != ':' by {
        assert(joined[j] == first[j]);
        assert(first.contains(first[j]));
    }
    assert(joined[first.len() as int] == ':');
    first_separator_is_unique(joined, first.len() as int);
    assert(joined.take(first.len() as int) =~= first);
    assert(joined.skip(first.len() as int + 1) =~= rest);
}

/// A text without a separator is its own first part.
pub proof fn head_of_plain(text: Seq<char>)
    requires
        plain(text),
    ensures
        head(text) == text,
        tail(text) is None,
{
    text.index_of_first_ensures(':');
}

/// The primary key of a plain namespace and a plain key is taken apart into
/// the two.
pub proof fn primary_key_round_trip(namespace: Seq<char>, key: Seq<char>)
    requires
        plain(namespace),
        plain(key),
    ensures
        namespace_and_key(primary_key(namespace, key)) == Some((namespace, key)),
        !meta_prefix().is_prefix_of(namespace) ==> classified(primary_key(namespace, key)) == Some(
            PhysicalKeyView::Primary { namespace, key },
        ),
{
    parts_of_joined(namespace, key);
    head_of_plain(key);
    let physical = primary_key(namespace, key);
    if meta_prefix().is_prefix_of(physical) && !meta_prefix().is_prefix_of(namespace) {
        if namespace.len() >= 5 {
            assert(physical.subrange(0, 5) =~= namespace.subrange(0, 5));
        } else {
            assert(physical.subrange(0, 5)[namespace.len() as int] == ':');
        }
    }
}

/// The metadata key of a plain namespace and a plain key is taken for a
/// metadata key, and apart into the two.
pub proof fn meta_key_round_trip(namespace: Seq<char>, key: Seq<char>)
    requires
        plain(namespace),
        plain(key),
    ensures
        classified(meta_key(namespace, key)) == Some(PhysicalKeyView::Meta { namespace, key }),
{
    let physical = meta_key(namespace, key);
    assert(physical.subrange(0, 5) =~= meta_prefix());
    assert(physical.skip(5) =~= primary_key(namespace, key));
    primary_key_round_trip(namespace, key);
}

/// The key of an index set of a plain namespace gives back the namespace.
pub proof fn index_key_round_trip(namespace: Seq<char>, name: Seq<char>, value: Seq<char>)
    requires
        plain(namespace),
    ensures
        namespace_of_index(index_key(namespace, name, value)) == Some(namespace),
{
    let physical = index_key(namespace, name, value);
    assert(physical.subrange(0, 4) =~= index_prefix());
    assert(physical.skip(4) =~= namespace + separator() + (name + separator() + value));
    parts_of_joined(namespace, name + separator() + value);
}

/// The primary entry and the metadata of one key have different physical
/// keys.
pub proof fn primary_is_not_meta(namespace: Seq<char>, key: Seq<char>)
    ensures
        primary_key(namespace, key) != meta_key(namespace, key),
{
    assert(primary_key(namespace, key).len() != meta_key(namespace, key).len());
}

/// No metadata has the physical key of an index set.
pub proof fn meta_is_not_index(
    namespace: Seq<char>,
    key: Seq<char>,
    other: Seq<char>,
    name: Seq<char>,
    value: Seq<char>,
)
    ensures
        meta_key(namespace, key) != index_key(other, name, value),
{
    assert(meta_key(namespace, key)[0] == 'm');
    assert(index_key(other, name, value)[0] == 'i');
}

/// In a plain namespace, no primary entry has the physical key of an index
/// set of the namespace.
pub proof fn primary_is_not_index(
    namespace: Seq<char>,
    key: Seq<char>,
    name: Seq<char>,
    value: Seq<char>,
)
    requires
        plain(namespace),
    ensures
        primary_key(namespace, key) != index_key(namespace, name, value),
{
    let primary = primary_key(namespace, key);
    let index = index_key(namespace, name, value);
    if primary == index {
        let at = namespace.len() as int;
        assert(primary[at] == ':');
        if at < 4 {
            assert(index[at] == index_prefix()[at]);
        } else {
            assert(index[at] == namespace[at - 4]);
            assert(namespace.contains(namespace[at - 4]));
        }
    }
}

/// Index sets with different plain names, or with different values, have
/// different physical keys.
pub proof fn index_keys_differ(
    namespace: Seq<char>,
    name: Seq<char>,
    value: Seq<char>,
    other_name: Seq<char>,
    other_value: Seq<char>,
)
    requires
        plain(name),
        plain(other_name),
        name != other_name || value != other_value,
    ensures
        index_key(namespace, name, value) != index_key(namespace, other_name, other_value),
{
    let one = index_key(namespace, name, value);
    let two = index_key(namespace, other_name, other_value);
    if one == two {
        let front = index_prefix() + namespace + separator();
        let rest_one = name + separator() + value;
        let rest_two = other_name + separator() + other_value;
        assert(one =~= front + rest_one);
        assert(two =~= front + rest_two);
        assert(rest_one =~= (front + rest_one).skip(front.len() as int));
        assert(rest_two =~= (front + rest_two).skip(front.len() as int));
        parts_of_joined(name, value);
        parts_of_joined(other_name, other_value);
    }
}

/// Different keys of one namespace have different metadata, and different
/// primary entries.
pub proof fn keys_differ(namespace: Seq<char>, key: Seq<char>, other: Seq<char>)
    requires
        key != other,
    ensures
        meta_key(namespace, key) != meta_key(namespace, other),
        primary_key(namespace, key) != primary_key(namespace, other),
{
    let front = meta_prefix() + namespace + separator();
    assert(key =~= (front + key).skip(front.len() as int));
    assert(other =~= (front + other).skip(front.len() as int));
    assert(meta_key(namespace, key) =~= front + key);
    assert(meta_key(namespace, other) =~= front + other);
    let start = namespace + separator();
    assert(key =~= (start + key).skip(start.len() as int));
    assert(other =~= (start + other).skip(start.len() as int));
}

/// In a plain namespace, no primary entry has the physical key of the
/// metadata of a key of the namespace.
pub proof fn primary_is_no_meta(namespace: Seq<char>, key: Seq<char>, other: Seq<char>)
    requires
        plain(namespace),
    ensures
        primary_key(namespace, key) != meta_key(namespace, other),
{
    let primary = primary_key(namespace, key);
    let meta = meta_key(namespace, other);
    if primary == meta {
        let at = namespace.len() as int;
        assert(primary[at] == ':');
        if at < 5 {
            assert(meta[at] == meta_prefix()[at]);
        } else {
            assert(meta[at] == namespace[at - 5]);
            assert(namespace.contains(namespace[at - 5]));
        }
    }
}

/// A text without a separator is no physical key of the layout.
pub proof fn plain_is_no_key(text: Seq<char>, namespace: Seq<char>, key: Seq<char>, value: Seq<char>)
    requires
        plain(text),
    ensures
        text != primary_key(namespace, key),
        text != meta_key(namespace, key),
        text != index_key(namespace, key, value),
{
    let primary = primary_key(namespace, key);
    assert(primary[namespace.len() as int] == ':');
    assert(primary.contains(':'));
    let meta = meta_key(namespace, key);
    assert(meta[5 + namespace.len() as int] == ':');
    assert(meta.contains(':'));
    let index = index_key(namespace, key, value);
    assert(index[4 + namespace.len() as int] == ':');
    assert(index.contains(':'));
}

} // verus!
