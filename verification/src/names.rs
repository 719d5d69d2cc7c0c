//! Operation names and the naming convention for property accessors.

use vstd::prelude::*;

verus! {

/// The prefix that marks an operation as a property getter: `get_`.
pub open spec fn getter_prefix() -> Seq<char> {
    seq!['g', 'e', 't', '_']
}

/// The prefix that marks an operation as a property setter: `set_`.
pub open spec fn setter_prefix() -> Seq<char> {
    seq!['s', 'e', 't', '_']
}

/// Whether an operation of this name is bound as a property getter.
pub open spec fn is_getter_name(name: Seq<char>) -> bool {
    getter_prefix().is_prefix_of(name)
}

/// Whether an operation of this name is bound as a property setter.
pub open spec fn is_setter_name(name: Seq<char>) -> bool {
    setter_prefix().is_prefix_of(name)
}

/// The property that an accessor operation exposes: its name without the
/// four characters of the prefix.
pub open spec fn spec_property_name(name: Seq<char>) -> Seq<char>
    recommends
        is_getter_name(name) || is_setter_name(name),
{
    name.skip(4)
}

/// Whether `name` begins with `prefix`.
pub fn starts_with(name: &str, prefix: &str) -> (b: bool)
    ensures
        b == prefix@.is_prefix_of(name@),
{
    let n: usize = name.unicode_len();
    let k: usize = prefix.unicode_len();
    if k > n {
        return false;
    }
    let mut i: usize = 0;
    while i < k
        invariant
            k <= n,
            n == name@.len(),
            k == prefix@.len(),
            i <= k,
            forall|j: int| 0 <= j < i ==> name@[j] == prefix@[j],
        decreases k - i,
    {
        if name.get_char(i) != prefix.get_char(i) {
            return false;
        }
        i += 1;
    }
    assert(prefix@ =~= name@.subrange(0, k as int));
    true
}

/// Whether `name` carries the getter prefix.
pub fn has_getter_prefix(name: &str) -> (b: bool)
    ensures
        b == is_getter_name(name@),
{
    proof {
        reveal_strlit("get_");
        assert("get_"@ =~= getter_prefix());
    }
    starts_with(name, "get_")
}

/// Whether `name` carries the setter prefix.
pub fn has_setter_prefix(name: &str) -> (b: bool)
    ensures
        b == is_setter_name(name@),
{
    proof {
        reveal_strlit("set_");
        assert("set_"@ =~= setter_prefix());
    }
    starts_with(name, "set_")
}

/// The property name of an accessor operation, or `None` where the name
/// carries neither prefix. The prefix is removed once: `get_get_x` exposes
/// the property `get_x`.
pub fn property_name(name: &str) -> (property: Option<String>)
    ensures
        property is Some <==> is_getter_name(name@) || is_setter_name(name@),
        property matches Some(p) ==> p@ == spec_property_name(name@),
{
    if has_getter_prefix(name) || has_setter_prefix(name) {
        let n: usize = name.unicode_len();
        let tail = name.substring_char(4, n);
        Some(tail.to_owned())
    } else {
        None
    }
}

/// Whether two names are the same sequence of characters.
pub fn same_name(a: &String, b: &String) -> (same: bool)
    ensures
        same == (a@ == b@),
{
    *a == *b
}

/// Whether a name is the given text.
pub fn is_name(name: &String, text: &str) -> (same: bool)
    ensures
        same == (name@ == text@),
{
    let matches = name.as_str().unicode_len() == text.unicode_len() && starts_with(
        name.as_str(),
        text,
    );
    proof {
        if matches {
            assert(name@ =~= name@.subrange(0, text@.len() as int));
        }
        if name@ == text@ {
            assert(text@ =~= name@.subrange(0, text@.len() as int));
        }
    }
    matches
}

} // verus!
