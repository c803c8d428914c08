use vstd::prelude::*;
use vstd::string::StringExecFns;

use crate::bucket::{bucket_checker_new_unchecked, builder_returns, checker_returns, Bucket};
use crate::evt::Event;
use crate::text::{contains_seq, lemma_occurs_at_left, lemma_occurs_at_right, occurs_at};

verus! {

/// The canonical bucket-dropping statement for a bucket: it removes the whole
/// bucket, and succeeds when the bucket is already absent.
pub open spec fn drop_query(name: Seq<char>) -> Seq<char> {
    "DROP TABLE IF EXISTS "@ + name
}

/// Holds when the delete executor can return outcome `r` when run with query
/// text `query` and key bytes `key` against some client handle.
pub open spec fn delete_exec_returns<C, D: Fn(&mut C, &str, &[u8]) -> Result<u64, Event>>(
    delete: D,
    query: Seq<char>,
    key: Seq<u8>,
    r: Result<u64, Event>,
) -> bool {
    exists|c: &mut C, q: &str, k: &[u8]|
        q@ == query && k@ == key && #[trigger] call_ensures(delete, (c, q, k), r)
}

/// Holds when the drop executor can return outcome `r` when run with query
/// text `query` against some client handle.
pub open spec fn remove_exec_returns<C, D: Fn(&mut C, &str) -> Result<(), Event>>(
    remove: D,
    query: Seq<char>,
    r: Result<(), Event>,
) -> bool {
    exists|c: &mut C, q: &str| q@ == query && #[trigger] call_ensures(remove, (c, q), r)
}

/// The possible outcomes of one composed delete-key operation on a bucket
/// named `name` with key bytes `key`: either the builder produced query text
/// and the executor decided the outcome on that text, or the builder itself
/// failed and its failure was passed through unchanged.
pub open spec fn delete_outcome<C, D, B>(
    delete: D,
    builder: B,
    name: Seq<char>,
    key: Seq<u8>,
    r: Result<u64, Event>,
) -> bool where
    D: Fn(&mut C, &str, &[u8]) -> Result<u64, Event>,
    B: Fn(&Bucket) -> Result<String, Event>,
{
    match r {
        Ok(cnt) => exists|q: String|
            #[trigger] builder_returns(builder, name, Ok(q)) && delete_exec_returns::<C, D>(
                delete,
                q@,
                key,
                Ok(cnt),
            ),
        Err(e) => builder_returns(builder, name, Err(e)) || (exists|q: String|
            #[trigger] builder_returns(builder, name, Ok(q)) && delete_exec_returns::<C, D>(
                delete,
                q@,
                key,
                Err(e),
            )),
    }
}

/// The possible outcomes of one composed drop-bucket operation on a bucket
/// named `name`, in the same shape as `delete_outcome`.
pub open spec fn drop_outcome<C, D, B>(
    remove: D,
    builder: B,
    name: Seq<char>,
    r: Result<(), Event>,
) -> bool where
    D: Fn(&mut C, &str) -> Result<(), Event>,
    B: Fn(&Bucket) -> Result<String, Event>,
{
    match r {
        Ok(u) => exists|q: String|
            #[trigger] builder_returns(builder, name, Ok(q)) && remove_exec_returns::<C, D>(
                remove,
                q@,
                Ok(u),
            ),
        Err(e) => builder_returns(builder, name, Err(e)) || (exists|q: String|
            #[trigger] builder_returns(builder, name, Ok(q)) && remove_exec_returns::<C, D>(
                remove,
                q@,
                Err(e),
            )),
    }
}

/// Creates a row remover from a delete executor and a query builder.
///
/// The remover builds the query text for the bucket, fails fast on a builder
/// failure without touching the client, and otherwise passes the executor's
/// outcome through unchanged: the client's whole change across a call is
/// exactly one executor step on the built text.  A count of zero affected
/// rows is a success, not an event.
pub fn delete_key_bytes_mut<D, B, C>(delete: D, builder: B) -> (f: impl Fn(
    &Bucket,
    &[u8],
    &mut C,
) -> Result<u64, Event>) where
    D: Fn(&mut C, &str, &[u8]) -> Result<u64, Event>,
    B: Fn(&Bucket) -> Result<String, Event>,

    requires
        forall|b: &Bucket| #[trigger] call_requires(builder, (b,)),
        forall|c: &mut C, q: &str, k: &[u8]| #[trigger] call_requires(delete, (c, q, k)),
    ensures
        forall|b: &Bucket, k: &[u8], c: &mut C| #[trigger] call_requires(f, (b, k, c)),
        forall|b: &Bucket, k: &[u8], c: &mut C, r: Result<u64, Event>|
            #[trigger] call_ensures(f, (b, k, c), r) ==> delete_outcome(
                delete,
                builder,
                b@,
                k@,
                r,
            ),
        forall|b: &Bucket, k: &[u8], c: &mut C, r: Result<u64, Event>|
            call_ensures(f, (b, k, c), r) ==> (exists|q: String, m: &mut C, qs: &str, ks: &[u8]|
                #[trigger] builder_returns(builder, b@, Ok(q)) && qs@ == q@ && ks@ == k@
                    && *m == *c && *final(m) == *final(c) && #[trigger] call_ensures(
                    delete,
                    (m, qs, ks),
                    r,
                )) || (r is Err && builder_returns(builder, b@, Err(r->Err_0)) && *final(c) == *c),
        forall|b: &Bucket, k: &[u8], c: &mut C, r: Result<u64, Event>|
            call_ensures(f, (b, k, c), r) && (forall|q: String|
                !(#[trigger] builder_returns(builder, b@, Ok(q)))) ==> *final(c) == *c,
{
    move |b: &Bucket, key: &[u8], client: &mut C| -> (r: Result<u64, Event>)
        ensures
            delete_outcome(delete, builder, b@, key@, r),
            (exists|q: String, m: &mut C, qs: &str, ks: &[u8]|
                #[trigger] builder_returns(builder, b@, Ok(q)) && qs@ == q@ && ks@ == key@
                    && *m == *old(client) && *final(m) == *final(client)
                    && #[trigger] call_ensures(delete, (m, qs, ks), r)) || (r is Err
                && builder_returns(builder, b@, Err(r->Err_0)) && *final(client) == *old(client)),
            (forall|q: String| !(#[trigger] builder_returns(builder, b@, Ok(q))))
                ==> *final(client) == *old(client),
        {
            match builder(b) {
                Err(e) => {
                    proof {
                        assert(builder_returns(builder, b@, Err::<String, Event>(e)));
                    }
                    Err(e)
                },
                Ok(query) => {
                    let r = delete(client, query.as_str(), key);
                    proof {
                        assert(builder_returns(builder, b@, Ok(query)));
                        assert(delete_exec_returns::<C, D>(delete, query@, key@, r));
                    }
                    r
                },
            }
        }
}

/// Creates a bucket dropper from a drop executor and a query builder.
///
/// The dropper builds the query text for the bucket, fails fast on a builder
/// failure without touching the client, and otherwise passes the executor's
/// outcome through unchanged: the client's whole change across a call is
/// exactly one executor step on the built text.
pub fn drop_bucket_mut<D, B, C>(remove: D, builder: B) -> (f: impl Fn(&Bucket, &mut C) -> Result<
    (),
    Event,
>) where
    D: Fn(&mut C, &str) -> Result<(), Event>,
    B: Fn(&Bucket) -> Result<String, Event>,

    requires
        forall|b: &Bucket| #[trigger] call_requires(builder, (b,)),
        forall|c: &mut C, q: &str| #[trigger] call_requires(remove, (c, q)),
    ensures
        forall|b: &Bucket, c: &mut C| #[trigger] call_requires(f, (b, c)),
        forall|b: &Bucket, c: &mut C, r: Result<(), Event>|
            #[trigger] call_ensures(f, (b, c), r) ==> drop_outcome(remove, builder, b@, r),
        forall|b: &Bucket, c: &mut C, r: Result<(), Event>|
            call_ensures(f, (b, c), r) ==> (exists|q: String, m: &mut C, qs: &str|
                #[trigger] builder_returns(builder, b@, Ok(q)) && qs@ == q@ && *m == *c
                    && *final(m) == *final(c) && #[trigger] call_ensures(remove, (m, qs), r)) || (r is Err
                && builder_returns(builder, b@, Err(r->Err_0)) && *final(c) == *c),
        forall|b: &Bucket, c: &mut C, r: Result<(), Event>|
            call_ensures(f, (b, c), r) && (forall|q: String|
                !(#[trigger] builder_returns(builder, b@, Ok(q)))) ==> *final(c) == *c,
{
    move |b: &Bucket, client: &mut C| -> (r: Result<(), Event>)
        ensures
            drop_outcome(remove, builder, b@, r),
            (exists|q: String, m: &mut C, qs: &str|
                #[trigger] builder_returns(builder, b@, Ok(q)) && qs@ == q@ && *m == *old(client)
                    && *final(m) == *final(client) && #[trigger] call_ensures(remove, (m, qs), r))
                || (r is Err && builder_returns(builder, b@, Err(r->Err_0)) && *final(client)
                == *old(client)),
            (forall|q: String| !(#[trigger] builder_returns(builder, b@, Ok(q))))
                ==> *final(client) == *old(client),
        {
            match builder(b) {
                Err(e) => {
                    proof {
                        assert(builder_returns(builder, b@, Err::<String, Event>(e)));
                    }
                    Err(e)
                },
                Ok(query) => {
                    let r = remove(client, query.as_str());
                    proof {
                        assert(builder_returns(builder, b@, Ok(query)));
                        assert(remove_exec_returns::<C, D>(remove, query@, r));
                    }
                    r
                },
            }
        }
}

/// Creates a checked drop query builder: the checker is consulted first, and
/// only when it accepts the bucket name is the canonical dropping text built.
pub fn drop_builder_default_checked<C>(checker: C) -> (f: impl Fn(&Bucket) -> Result<
    String,
    Event,
>) where C: Fn(&Bucket) -> Result<(), Event>,

    requires
        forall|b: &Bucket| #[trigger] call_requires(checker, (b,)),
    ensures
        forall|b: &Bucket| #[trigger] call_requires(f, (b,)),
        forall|b: &Bucket, r: Result<String, Event>|
            #[trigger] call_ensures(f, (b,), r) ==> match r {
                Ok(q) => q@ == drop_query(b@) && checker_returns(checker, b@, Ok(())),
                Err(e) => checker_returns(checker, b@, Err(e)),
            },
{
    move |b: &Bucket| -> (r: Result<String, Event>)
        ensures
            match r {
                Ok(q) => q@ == drop_query(b@) && checker_returns(checker, b@, Ok::<(), Event>(())),
                Err(e) => checker_returns(checker, b@, Err::<(), Event>(e)),
            },
        {
            match checker(b) {
                Err(e) => Err(e),
                Ok(_u) => {
                    let mut q = "DROP TABLE IF EXISTS ".to_owned();
                    q.append(b.as_str());
                    proof {
                        assert(q@ =~= drop_query(b@));
                    }
                    Ok(q)
                },
            }
        }
}

/// Creates the default unchecked drop query builder: it accepts every bucket
/// name and always produces the canonical dropping text.
pub fn drop_builder_default_unchecked() -> (f: impl Fn(&Bucket) -> Result<String, Event>)
    ensures
        forall|b: &Bucket| #[trigger] call_requires(f, (b,)),
        forall|b: &Bucket, r: Result<String, Event>|
            #[trigger] call_ensures(f, (b,), r) ==> r is Ok && r->Ok_0@ == drop_query(b@),
{
    let checker = bucket_checker_new_unchecked();
    drop_builder_default_checked(checker)
}

/// Law: the canonical dropping text holds its DROP TABLE IF EXISTS marker and
/// the bucket name verbatim, the marker first.
pub proof fn lemma_drop_query_markers(name: Seq<char>)
    ensures
        occurs_at(drop_query(name), "DROP TABLE IF EXISTS "@, 0),
        occurs_at(drop_query(name), name, "DROP TABLE IF EXISTS "@.len() as int),
        contains_seq(drop_query(name), "DROP TABLE IF EXISTS "@),
        contains_seq(drop_query(name), name),
{
    let head = "DROP TABLE IF EXISTS "@;
    assert(head.subrange(0, head.len() as int) =~= head);
    lemma_occurs_at_left(head, name, head, 0);
    assert(name.subrange(0, name.len() as int) =~= name);
    lemma_occurs_at_right(head, name, name, 0);
}

/// Law: dropping an absent bucket is idempotent.  With a backend for which
/// the drop statement succeeds on an absent bucket and a builder that always
/// succeeds, two successive drop operations both return success, never an
/// event.
pub proof fn lemma_drop_bucket_idempotent<C, D, B>(
    remove: D,
    builder: B,
    name: Seq<char>,
    first: Result<(), Event>,
    second: Result<(), Event>,
) where
    D: Fn(&mut C, &str) -> Result<(), Event>,
    B: Fn(&Bucket) -> Result<String, Event>,

    requires
        forall|args: (&mut C, &str), ret: Result<(), Event>|
            #[trigger] call_ensures(remove, args, ret) ==> ret == Ok::<(), Event>(()),
        forall|b: &Bucket, ret: Result<String, Event>|
            #[trigger] call_ensures(builder, (b,), ret) ==> ret is Ok,
        drop_outcome::<C, D, B>(remove, builder, name, first),
        drop_outcome::<C, D, B>(remove, builder, name, second),
    ensures
        first == Ok::<(), Event>(()),
        second == Ok::<(), Event>(()),
{
}

} // verus!
