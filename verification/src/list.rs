use vstd::prelude::*;
use vstd::string::StringExecFns;

use crate::bucket::{bucket_checker_new_unchecked, builder_returns, checker_returns, Bucket};
use crate::evt::Event;
use crate::text::{contains_seq, lemma_occurs_at_left, lemma_occurs_at_right, occurs_at};

verus! {

/// The canonical key-listing statement for a bucket: it selects every key of
/// the bucket and orders the result ascending by key.
pub open spec fn list_query(name: Seq<char>) -> Seq<char> {
    "SELECT key FROM "@ + name + " ORDER BY key"@
}

/// Lexicographic order on byte strings, the order the ordering clause of the
/// canonical listing statement asks the backend for.
pub open spec fn bytes_le(a: Seq<u8>, b: Seq<u8>) -> bool
    decreases a.len(),
{
    if a.len() == 0 {
        true
    } else if b.len() == 0 {
        false
    } else if a[0] < b[0] {
        true
    } else if a[0] > b[0] {
        false
    } else {
        bytes_le(a.drop_first(), b.drop_first())
    }
}

/// Holds when a sequence of keys is ascending in lexicographic byte order.
pub open spec fn keys_ascending(keys: Seq<Vec<u8>>) -> bool {
    forall|i: int, j: int|
        0 <= i < j < keys.len() ==> bytes_le(#[trigger] keys[i]@, #[trigger] keys[j]@)
}

/// Holds when the list executor can return outcome `r` when run with query
/// text `query` against some client handle.
pub open spec fn list_exec_returns<C, L: Fn(&mut C, &str) -> Result<Vec<Vec<u8>>, Event>>(
    list: L,
    query: Seq<char>,
    r: Result<Vec<Vec<u8>>, Event>,
) -> bool {
    exists|c: &mut C, q: &str| q@ == query && #[trigger] call_ensures(list, (c, q), r)
}

/// The possible outcomes of one composed list operation on a bucket named
/// `name`: either the builder produced query text and the executor decided
/// the outcome on that text, or the builder itself failed and its failure was
/// passed through unchanged.
pub open spec fn list_outcome<C, L, B>(
    list: L,
    builder: B,
    name: Seq<char>,
    r: Result<Vec<Vec<u8>>, Event>,
) -> bool where
    L: Fn(&mut C, &str) -> Result<Vec<Vec<u8>>, Event>,
    B: Fn(&Bucket) -> Result<String, Event>,
{
    match r {
        Ok(keys) => exists|q: String|
            #[trigger] builder_returns(builder, name, Ok(q)) && list_exec_returns::<C, L>(
                list,
                q@,
                Ok(keys),
            ),
        Err(e) => builder_returns(builder, name, Err(e)) || (exists|q: String|
            #[trigger] builder_returns(builder, name, Ok(q)) && list_exec_returns::<C, L>(
                list,
                q@,
                Err(e),
            )),
    }
}

/// Creates a key-listing handler from a list executor and a query builder.
///
/// The handler builds the query text for the bucket, fails fast on a builder
/// failure without touching the client, and otherwise passes the executor's
/// outcome through unchanged: the client's whole change across a call is
/// exactly one executor step on the built text.
pub fn list_keys_bytes_new_mut<L, B, C>(list: L, builder: B) -> (f: impl Fn(
    &Bucket,
    &mut C,
) -> Result<Vec<Vec<u8>>, Event>) where
    L: Fn(&mut C, &str) -> Result<Vec<Vec<u8>>, Event>,
    B: Fn(&Bucket) -> Result<String, Event>,

    requires
        forall|b: &Bucket| #[trigger] call_requires(builder, (b,)),
        forall|c: &mut C, q: &str| #[trigger] call_requires(list, (c, q)),
    ensures
        forall|b: &Bucket, c: &mut C| #[trigger] call_requires(f, (b, c)),
        forall|b: &Bucket, c: &mut C, r: Result<Vec<Vec<u8>>, Event>|
            #[trigger] call_ensures(f, (b, c), r) ==> list_outcome(list, builder, b@, r),
        forall|b: &Bucket, c: &mut C, r: Result<Vec<Vec<u8>>, Event>|
            call_ensures(f, (b, c), r) ==> (exists|q: String, m: &mut C, qs: &str|
                #[trigger] builder_returns(builder, b@, Ok(q)) && qs@ == q@ && *m == *c
                    && *final(m) == *final(c) && #[trigger] call_ensures(list, (m, qs), r)) || (
            r is Err && builder_returns(builder, b@, Err(r->Err_0)) && *final(c) == *c),
        forall|b: &Bucket, c: &mut C, r: Result<Vec<Vec<u8>>, Event>|
            call_ensures(f, (b, c), r) && (forall|q: String|
                !(#[trigger] builder_returns(builder, b@, Ok(q)))) ==> *final(c) == *c,
{
    move |b: &Bucket, client: &mut C| -> (r: Result<Vec<Vec<u8>>, Event>)
        ensures
            list_outcome(list, builder, b@, r),
            (exists|q: String, m: &mut C, qs: &str|
                #[trigger] builder_returns(builder, b@, Ok(q)) && qs@ == q@ && *m == *old(client)
                    && *final(m) == *final(client) && #[trigger] call_ensures(list, (m, qs), r))
                || (r is Err && builder_returns(builder, b@, Err(r->Err_0)) && *final(client)
                == *old(client)),
            (forall|q: String| !(#[trigger] builder_returns(builder, b@, Ok(q))))
                ==> *final(client) == *old(client),
        {
            match builder(b) {
                Err(e) => {
                    proof {
                        assert(builder_returns(builder, b@, Err::<String, Event>(e)));
                    }
                    Err(e)
                },
                Ok(query) => {
                    let r = list(client, query.as_str());
                    proof {
                        assert(builder_returns(builder, b@, Ok(query)));
                        assert(list_exec_returns::<C, L>(list, query@, r));
                    }
                    r
                },
            }
        }
}

/// Creates a checked list query builder: the checker is consulted first, and
/// only when it accepts the bucket name is the canonical listing text built.
pub fn list_query_builder_checked<C>(checker: C) -> (f: impl Fn(&Bucket) -> Result<
    String,
    Event,
>) where C: Fn(&Bucket) -> Result<(), Event>,

    requires
        forall|b: &Bucket| #[trigger] call_requires(checker, (b,)),
    ensures
        forall|b: &Bucket| #[trigger] call_requires(f, (b,)),
        forall|b: &Bucket, r: Result<String, Event>|
            #[trigger] call_ensures(f, (b,), r) ==> match r {
                Ok(q) => q@ == list_query(b@) && checker_returns(checker, b@, Ok(())),
                Err(e) => checker_returns(checker, b@, Err(e)),
            },
{
    move |b: &Bucket| -> (r: Result<String, Event>)
        ensures
            match r {
                Ok(q) => q@ == list_query(b@) && checker_returns(checker, b@, Ok::<(), Event>(())),
                Err(e) => checker_returns(checker, b@, Err::<(), Event>(e)),
            },
        {
            match checker(b) {
                Err(e) => Err(e),
                Ok(_u) => {
                    let mut q = "SELECT key FROM ".to_owned();
                    q.append(b.as_str());
                    q.append(" ORDER BY key");
                    proof {
                        assert(q@ =~= list_query(b@));
                    }
                    Ok(q)
                },
            }
        }
}

/// Creates the default unchecked list query builder: it accepts every bucket
/// name and always produces the canonical listing text.
pub fn list_query_builder_unchecked() -> (f: impl Fn(&Bucket) -> Result<String, Event>)
    ensures
        forall|b: &Bucket| #[trigger] call_requires(f, (b,)),
        forall|b: &Bucket, r: Result<String, Event>|
            #[trigger] call_ensures(f, (b,), r) ==> r is Ok && r->Ok_0@ == list_query(b@),
{
    let checker = bucket_checker_new_unchecked();
    list_query_builder_checked(checker)
}

/// Law: the canonical listing text holds its SELECT and ORDER BY markers and
/// the bucket name verbatim, in that order.
pub proof fn lemma_list_query_markers(name: Seq<char>)
    ensures
        occurs_at(list_query(name), "SELECT key FROM "@, 0),
        occurs_at(list_query(name), name, "SELECT key FROM "@.len() as int),
        occurs_at(
            list_query(name),
            " ORDER BY key"@,
            "SELECT key FROM "@.len() + name.len() as int,
        ),
        contains_seq(list_query(name), "SELECT key FROM "@),
        contains_seq(list_query(name), name),
        contains_seq(list_query(name), " ORDER BY key"@),
{
    let head = "SELECT key FROM "@;
    let tail = " ORDER BY key"@;
    assert(head.subrange(0, head.len() as int) =~= head);
    lemma_occurs_at_left(head, name, head, 0);
    lemma_occurs_at_left(head + name, tail, head, 0);
    assert(name.subrange(0, name.len() as int) =~= name);
    lemma_occurs_at_right(head, name, name, 0);
    lemma_occurs_at_left(head + name, tail, name, head.len() as int);
    assert(tail.subrange(0, tail.len() as int) =~= tail);
    lemma_occurs_at_right(head + name, tail, tail, 0);
}

/// Law: a list operation whose executor honours the ordering clause returns
/// keys ascending by key; the outcome can hold no other key order.
pub proof fn lemma_list_keys_ascending<C, L, B>(
    list: L,
    builder: B,
    name: Seq<char>,
    r: Result<Vec<Vec<u8>>, Event>,
) where
    L: Fn(&mut C, &str) -> Result<Vec<Vec<u8>>, Event>,
    B: Fn(&Bucket) -> Result<String, Event>,

    requires
        forall|args: (&mut C, &str), ret: Result<Vec<Vec<u8>>, Event>|
            #[trigger] call_ensures(list, args, ret) ==> (ret is Ok ==> keys_ascending(
                ret->Ok_0@,
            )),
        list_outcome::<C, L, B>(list, builder, name, r),
    ensures
        r is Ok ==> keys_ascending(r->Ok_0@),
{
}

} // verus!
