//! Reading one group of agent options.
use vstd::prelude::*;

use crate::text::split_on;

verus! {

/// The characters of `a` before its first `=`; all of `a` when it has none.
pub open spec fn arg_key(a: Seq<char>) -> Seq<char>
    decreases a.len(),
{
    if a.len() == 0 || a[0] == '=' {
        Seq::<char>::empty()
    } else {
        seq![a[0]] + arg_key(a.drop_first())
    }
}

/// The characters of `a` after its first `=`; empty when it has none.
pub open spec fn arg_value(a: Seq<char>) -> Seq<char> {
    if a.contains('=') {
        a.subrange(arg_key(a).len() + 1int, a.len() as int)
    } else {
        Seq::<char>::empty()
    }
}

/// The value of the last argument among `args` whose key is `key`.
pub open spec fn last_value_of(args: Seq<Seq<char>>, key: Seq<char>) -> Option<Seq<char>>
    decreases args.len(),
{
    if args.len() == 0 {
        None
    } else if arg_key(args.last()) == key {
        Some(arg_value(args.last()))
    } else {
        last_value_of(args.drop_last(), key)
    }
}

/// The two keys whose `key=value` arguments the option parser keeps apart
/// from the custom ones.
pub open spec fn is_reserved_key(key: Seq<char>) -> bool {
    key == seq!['a', 'g', 'e', 'n', 't', 'i', 'd'] || key == seq!['c', 'o', 'n', 'f', 'i', 'g']
}

/// The custom argument `key` of an option group: the group is a list of
/// `key=value` arguments (or bare keys, with an empty value) separated by
/// commas, and a later argument overrides an earlier one.
pub open spec fn custom_arg(group: Seq<char>, key: Seq<char>) -> Option<Seq<char>> {
    if group.len() == 0 {
        None
    } else {
        last_value_of(split_on(group, ','), key)
    }
}

/// Relies on jvmti::options::Options::parse, which splits its text at commas,
/// each argument at its first `=`, and keeps the arguments other than
/// `agentid` and `config` in its map of custom arguments, a later one
/// replacing an earlier one of the same key.
#[verifier::external_body]
pub(crate) fn custom_arg_of(group: &str, key: &str) -> (r: Option<String>)
    requires
        !is_reserved_key(key@),
    ensures
        r matches Some(v) ==> custom_arg(group@, key@) == Some(v@),
        r is None ==> custom_arg(group@, key@) is None,
{
    jvmti::options::Options::parse(group.to_string()).custom_args.get(key).cloned()
}

} // verus!
