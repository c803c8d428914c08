use vstd::prelude::*;

use crate::bucket::{builder_returns, Bucket};
use crate::evt::Event;

verus! {

/// A request to read up to one value out of a bucket.
pub struct GetRequest<K> {
    bucket: Bucket,
    key: K,
}

impl<K> GetRequest<K> {
    /// The bucket addressed by this request.
    pub closed spec fn bucket(&self) -> Bucket {
        self.bucket
    }

    /// The key addressed by this request.
    pub closed spec fn key(&self) -> K {
        self.key
    }

    /// Creates a new get request for the bucket.
    pub fn new(bucket: Bucket, key: K) -> (r: Self)
        ensures
            r.bucket() == bucket,
            r.key() == key,
    {
        Self { bucket, key }
    }

    /// Gets the bucket reference.
    pub fn as_bucket(&self) -> (r: &Bucket)
        ensures
            *r == self.bucket(),
    {
        &self.bucket
    }

    /// Gets the key reference.
    pub fn as_key(&self) -> (r: &K)
        ensures
            *r == self.key(),
    {
        &self.key
    }
}

/// Holds when the select executor can return outcome `r` when run with query
/// text `query` and key bytes `key` against some client handle.
pub open spec fn select_returns<C, S: Fn(&mut C, &str, &[u8]) -> Result<Option<Vec<u8>>, Event>>(
    select: S,
    query: Seq<char>,
    key: Seq<u8>,
    r: Result<Option<Vec<u8>>, Event>,
) -> bool {
    exists|c: &mut C, q: &str, k: &[u8]|
        q@ == query && k@ == key && #[trigger] call_ensures(select, (c, q, k), r)
}

/// The possible outcomes of one composed get operation on a bucket named
/// `name` with key bytes `key`: either the builder produced query text and the
/// executor decided the outcome on that text, or the builder itself failed and
/// its failure was passed through unchanged.
pub open spec fn get_outcome<C, S, B>(
    select: S,
    builder: B,
    name: Seq<char>,
    key: Seq<u8>,
    r: Result<Option<Vec<u8>>, Event>,
) -> bool where
    S: Fn(&mut C, &str, &[u8]) -> Result<Option<Vec<u8>>, Event>,
    B: Fn(&Bucket) -> Result<String, Event>,
{
    match r {
        Ok(v) => exists|q: String|
            #[trigger] builder_returns(builder, name, Ok(q)) && select_returns::<C, S>(
                select,
                q@,
                key,
                Ok(v),
            ),
        Err(e) => builder_returns(builder, name, Err(e)) || (exists|q: String|
            #[trigger] builder_returns(builder, name, Ok(q)) && select_returns::<C, S>(
                select,
                q@,
                key,
                Err(e),
            )),
    }
}

/// Creates a select handler from a select executor and a query builder.
///
/// The handler builds the query text for the request's bucket, fails fast on
/// a builder failure without touching the client, and otherwise passes the
/// executor's outcome through unchanged.
pub fn select_bytes_new_mut<S, B, C>(select: S, builder: B) -> (f: impl Fn(
    &GetRequest<Vec<u8>>,
    &mut C,
) -> Result<Option<Vec<u8>>, Event>) where
    S: Fn(&mut C, &str, &[u8]) -> Result<Option<Vec<u8>>, Event>,
    B: Fn(&Bucket) -> Result<String, Event>,

    requires
        forall|b: &Bucket| #[trigger] call_requires(builder, (b,)),
        forall|c: &mut C, q: &str, k: &[u8]| #[trigger] call_requires(select, (c, q, k)),
    ensures
        forall|req: &GetRequest<Vec<u8>>, c: &mut C| #[trigger] call_requires(f, (req, c)),
        forall|req: &GetRequest<Vec<u8>>, c: &mut C, r: Result<Option<Vec<u8>>, Event>|
            #[trigger] call_ensures(f, (req, c), r) ==> get_outcome(
                select,
                builder,
                req.bucket()@,
                req.key()@,
                r,
            ),
        forall|req: &GetRequest<Vec<u8>>, c: &mut C, r: Result<Option<Vec<u8>>, Event>|
            call_ensures(f, (req, c), r) ==> (exists|q: String, m: &mut C, qs: &str, ks: &[u8]|
                #[trigger] builder_returns(builder, req.bucket()@, Ok(q)) && qs@ == q@
                    && ks@ == req.key()@ && *m == *c && *final(m) == *final(c)
                    && #[trigger] call_ensures(select, (m, qs, ks), r)) || (r is Err
                && builder_returns(builder, req.bucket()@, Err(r->Err_0)) && *final(c) == *c),
        forall|req: &GetRequest<Vec<u8>>, c: &mut C, r: Result<Option<Vec<u8>>, Event>|
            call_ensures(f, (req, c), r) && (forall|q: String|
                !(#[trigger] builder_returns(builder, req.bucket()@, Ok(q)))) ==> *final(c) == *c,
{
    move |req: &GetRequest<Vec<u8>>, client: &mut C| -> (r: Result<Option<Vec<u8>>, Event>)
        ensures
            get_outcome(select, builder, req.bucket()@, req.key()@, r),
            (exists|q: String, m: &mut C, qs: &str, ks: &[u8]|
                #[trigger] builder_returns(builder, req.bucket()@, Ok(q)) && qs@ == q@
                    && ks@ == req.key()@ && *m == *old(client) && *final(m) == *final(client)
                    && #[trigger] call_ensures(select, (m, qs, ks), r)) || (r is Err
                && builder_returns(builder, req.bucket()@, Err(r->Err_0)) && *final(client)
                == *old(client)),
            (forall|q: String| !(#[trigger] builder_returns(builder, req.bucket()@, Ok(q))))
                ==> *final(client) == *old(client),
        {
            let b: &Bucket = req.as_bucket();
            let k: &[u8] = req.as_key().as_slice();
            match builder(b) {
                Err(e) => {
                    proof {
                        assert(builder_returns(builder, req.bucket()@, Err::<String, Event>(e)));
                    }
                    Err(e)
                },
                Ok(query) => {
                    let r = select(client, query.as_str(), k);
                    proof {
                        assert(builder_returns(builder, req.bucket()@, Ok(query)));
                        assert(select_returns::<C, S>(select, query@, req.key()@, r));
                    }
                    r
                },
            }
        }
}

/// Law: a get whose executor never finds a row yields the empty option, not
/// an event, for any request, as long as the builder succeeds.
pub proof fn lemma_get_none_on_empty<C, S, B>(
    select: S,
    builder: B,
    name: Seq<char>,
    key: Seq<u8>,
    r: Result<Option<Vec<u8>>, Event>,
) where
    S: Fn(&mut C, &str, &[u8]) -> Result<Option<Vec<u8>>, Event>,
    B: Fn(&Bucket) -> Result<String, Event>,

    requires
        forall|args: (&mut C, &str, &[u8]), ret: Result<Option<Vec<u8>>, Event>|
            #[trigger] call_ensures(select, args, ret) ==> ret == Ok::<Option<Vec<u8>>, Event>(
                None,
            ),
        forall|b: &Bucket, ret: Result<String, Event>|
            #[trigger] call_ensures(builder, (b,), ret) ==> ret is Ok,
        get_outcome::<C, S, B>(select, builder, name, key, r),
    ensures
        r == Ok::<Option<Vec<u8>>, Event>(None),
{
}

} // verus!
