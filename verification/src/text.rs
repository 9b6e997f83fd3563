//! Texts put together from parts.

use vstd::prelude::*;
use vstd::string::StringExecFns;

verus! {

pub fn concat3(a: &str, b: &str, c: &str) -> (whole: String)
    ensures
        whole@ == a@ + b@ + c@,
{
    let mut whole: String = a.to_owned();
    whole.append(b);
    whole.append(c);
    whole
}

pub fn append(whole: &mut String, part: &str)
    ensures
        final(whole)@ == old(whole)@ + part@,
{
    StringExecFns::append(whole, part);
}

/// `keyspace.table`.
pub open spec fn qualified(keyspace: Seq<char>, table: Seq<char>) -> Seq<char> {
    keyspace + "."@ + table
}

pub fn qualify(keyspace: &str, table: &str) -> (name: String)
    ensures
        name@ == qualified(keyspace@, table@),
{
    concat3(keyspace, ".", table)
}

} // verus!
