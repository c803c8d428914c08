use vstd::prelude::*;

use crate::bucket::{builder_returns, Bucket};
use crate::evt::Event;
use crate::item::Item;

verus! {

/// A batch of upsert requests addressed to a single bucket.  The order of
/// the items is preserved and determines the order statements are issued.
pub struct BulkRequest<K, V> {
    bucket: Bucket,
    items: Vec<Item<K, V>>,
}

impl<K, V> BulkRequest<K, V> {
    /// The bucket addressed by this request.
    pub closed spec fn bucket(&self) -> Bucket {
        self.bucket
    }

    /// The items of this request, in issue order.
    pub closed spec fn items(&self) -> Seq<Item<K, V>> {
        self.items@
    }

    /// Creates a new upsert request for the bucket.
    pub fn new(bucket: Bucket, items: Vec<Item<K, V>>) -> (r: Self)
        ensures
            r.bucket() == bucket,
            r.items() == items@,
    {
        Self { bucket, items }
    }

    /// Gets the bucket reference.
    pub fn as_bucket(&self) -> (r: &Bucket)
        ensures
            *r == self.bucket(),
    {
        &self.bucket
    }

    /// Gets the items as a shared slice.
    pub fn as_items(&self) -> (r: &[Item<K, V>])
        ensures
            r@ == self.items(),
    {
        self.items.as_slice()
    }
}

/// Converts a generic request into a raw one whose keys and values are byte
/// strings, applying the two conversions to every item.  The bucket and the
/// count and order of the items are preserved.
pub fn convert_request<K, V, F, G>(original: BulkRequest<K, V>, key2bytes: F, val2bytes: G) -> (r:
    BulkRequest<Vec<u8>, Vec<u8>>) where
    F: Fn(K) -> Vec<u8>,
    G: Fn(V) -> Vec<u8>,

    requires
        forall|k: K| #[trigger] call_requires(key2bytes, (k,)),
        forall|v: V| #[trigger] call_requires(val2bytes, (v,)),
    ensures
        r.bucket() == original.bucket(),
        r.items().len() == original.items().len(),
        forall|i: int|
            0 <= i < original.items().len() ==> call_ensures(
                key2bytes,
                (original.items()[i].key(),),
                #[trigger] r.items()[i].key(),
            ) && call_ensures(val2bytes, (original.items()[i].val(),), r.items()[i].val()),
{
    let BulkRequest { bucket, items } = original;
    let mut rest = items;
    let ghost whole = rest@;
    let mut converted: Vec<Item<Vec<u8>, Vec<u8>>> = Vec::new();
    while rest.len() > 0
        invariant
            converted@.len() + rest@.len() == whole.len(),
            rest@ == whole.subrange(converted@.len() as int, whole.len() as int),
            forall|i: int|
                0 <= i < converted@.len() ==> call_ensures(
                    key2bytes,
                    (whole[i].key(),),
                    #[trigger] converted@[i].key(),
                ) && call_ensures(val2bytes, (whole[i].val(),), converted@[i].val()),
            forall|k: K| #[trigger] call_requires(key2bytes, (k,)),
            forall|v: V| #[trigger] call_requires(val2bytes, (v,)),
        decreases rest@.len(),
    {
        let ghost rest0 = rest@;
        let item = rest.remove(0);
        let (key, val) = item.into_pair();
        let kb: Vec<u8> = key2bytes(key);
        let vb: Vec<u8> = val2bytes(val);
        converted.push(Item::new(kb, vb));
        proof {
            assert(rest@ =~= rest0.drop_first());
            assert(rest@ =~= whole.subrange(converted@.len() as int, whole.len() as int));
        }
    }
    BulkRequest::new(bucket, converted)
}

/// Capability interface supplying the two statement kinds an upsert batch
/// needs per bucket: a create-if-absent statement and an insert-or-update
/// statement.  The spec hooks say when each builder may be invoked and which
/// outcomes it can produce.
pub trait UpsertBuilder: Sized {
    /// When the create-statement builder may be invoked for a bucket name.
    spec fn create_req(&self, name: Seq<char>) -> bool;

    /// When the upsert-statement builder may be invoked for a bucket name.
    spec fn upsert_req(&self, name: Seq<char>) -> bool;

    /// The outcomes the create-statement builder can produce for a name.
    spec fn create_post(&self, name: Seq<char>, r: Result<String, Event>) -> bool;

    /// The outcomes the upsert-statement builder can produce for a name.
    spec fn upsert_post(&self, name: Seq<char>, r: Result<String, Event>) -> bool;

    /// Builds the create-bucket-if-absent statement for a bucket.
    fn build_create(&self, b: &Bucket) -> (r: Result<String, Event>)
        requires
            self.create_req(b@),
        ensures
            self.create_post(b@, r),
    ;

    /// Builds the insert-or-update statement for a bucket.
    fn build_upsert(&self, b: &Bucket) -> (r: Result<String, Event>)
        requires
            self.upsert_req(b@),
        ensures
            self.upsert_post(b@, r),
    ;
}

struct UpsertBuilderF<C, U> {
    create: C,
    upsert: U,
}

impl<C, U> UpsertBuilder for UpsertBuilderF<C, U> where
    C: Fn(&Bucket) -> Result<String, Event>,
    U: Fn(&Bucket) -> Result<String, Event>,
 {
    closed spec fn create_req(&self, name: Seq<char>) -> bool {
        forall|b: &Bucket| b@ == name ==> #[trigger] call_requires(self.create, (b,))
    }

    closed spec fn upsert_req(&self, name: Seq<char>) -> bool {
        forall|b: &Bucket| b@ == name ==> #[trigger] call_requires(self.upsert, (b,))
    }

    closed spec fn create_post(&self, name: Seq<char>, r: Result<String, Event>) -> bool {
        builder_returns(self.create, name, r)
    }

    closed spec fn upsert_post(&self, name: Seq<char>, r: Result<String, Event>) -> bool {
        builder_returns(self.upsert, name, r)
    }

    fn build_create(&self, b: &Bucket) -> (r: Result<String, Event>) {
        let r = (self.create)(b);
        proof {
            assert(builder_returns(self.create, b@, r));
        }
        r
    }

    fn build_upsert(&self, b: &Bucket) -> (r: Result<String, Event>) {
        let r = (self.upsert)(b);
        proof {
            assert(builder_returns(self.upsert, b@, r));
        }
        r
    }
}

/// Creates an `UpsertBuilder` implementation out of two query-building
/// functions, one per statement kind.
pub fn upsert_builder_new<C, U>(create: C, upsert: U) -> (b: impl UpsertBuilder) where
    C: Fn(&Bucket) -> Result<String, Event>,
    U: Fn(&Bucket) -> Result<String, Event>,

    requires
        forall|bb: &Bucket| #[trigger] call_requires(create, (bb,)),
        forall|bb: &Bucket| #[trigger] call_requires(upsert, (bb,)),
    ensures
        forall|name: Seq<char>| #[trigger] b.create_req(name),
        forall|name: Seq<char>| #[trigger] b.upsert_req(name),
        forall|name: Seq<char>, r: Result<String, Event>|
            #[trigger] b.create_post(name, r) ==> builder_returns(create, name, r),
        forall|name: Seq<char>, r: Result<String, Event>|
            #[trigger] b.upsert_post(name, r) ==> builder_returns(upsert, name, r),
{
    UpsertBuilderF { create, upsert }
}

/// Holds when the create executor can return outcome `r` when run with
/// query text `query` against some transaction handle.
pub open spec fn create_exec_returns<T, C: Fn(&mut T, &str) -> Result<u64, Event>>(
    create: C,
    query: Seq<char>,
    r: Result<u64, Event>,
) -> bool {
    exists|t: &mut T, q: &str| q@ == query && #[trigger] call_ensures(create, (t, q), r)
}

/// Holds when the upsert executor can return outcome `r` when run with query
/// text `query`, key bytes `key` and value bytes `val` against some
/// transaction handle.
pub open spec fn upsert_exec_returns<T, U: Fn(&mut T, &str, &[u8], &[u8]) -> Result<u64, Event>>(
    upsert: U,
    query: Seq<char>,
    key: Seq<u8>,
    val: Seq<u8>,
    r: Result<u64, Event>,
) -> bool {
    exists|t: &mut T, q: &str, k: &[u8], v: &[u8]|
        q@ == query && k@ == key && v@ == val && #[trigger] call_ensures(upsert, (t, q, k, v), r)
}

/// The possible outcomes of executing one upsert statement per item in issue
/// order, where `step` gives the outcomes a single statement can have on an
/// item's key and value bytes: the reported counts are summed onto `acc`,
/// saturating at the largest count, and the first failure stops the fold and
/// becomes the overall outcome.
pub open spec fn sum_outcome(
    step: spec_fn(Seq<u8>, Seq<u8>, Result<u64, Event>) -> bool,
    items: Seq<Item<Vec<u8>, Vec<u8>>>,
    acc: u64,
    r: Result<u64, Event>,
) -> bool
    decreases items.len(),
{
    if items.len() == 0 {
        r == Ok::<u64, Event>(acc)
    } else {
        exists|sr: Result<u64, Event>|
            #[trigger] step(items[0].key()@, items[0].val()@, sr) && match sr {
                Ok(c) => sum_outcome(step, items.drop_first(), acc.saturating_add(c), r),
                Err(e) => r == Err::<u64, Event>(e),
            }
    }
}

/// The possible outcomes of one whole-request upsert: both statements are
/// built first, a builder failure is passed through unchanged, and otherwise
/// the create statement runs once and the upsert statement once per item,
/// their counts summed as in `sum_outcome`.  `create_step` and `upsert_step`
/// give the outcomes a single execution of each statement can have.
pub open spec fn request_outcome<B: UpsertBuilder>(
    builder: B,
    create_step: spec_fn(Seq<char>, Result<u64, Event>) -> bool,
    upsert_step: spec_fn(Seq<char>, Seq<u8>, Seq<u8>, Result<u64, Event>) -> bool,
    name: Seq<char>,
    items: Seq<Item<Vec<u8>, Vec<u8>>>,
    r: Result<u64, Event>,
) -> bool {
    ||| (exists|e: Event|
        #[trigger] builder.create_post(name, Err(e)) && r == Err::<u64, Event>(e))
    ||| (exists|qc: String, e: Event|
        #[trigger] builder.create_post(name, Ok(qc)) && #[trigger] builder.upsert_post(
            name,
            Err(e),
        ) && r == Err::<u64, Event>(e))
    ||| (exists|qc: String, qu: String|
        #[trigger] builder.create_post(name, Ok(qc)) && #[trigger] builder.upsert_post(
            name,
            Ok(qu),
        ) && (exists|cr: Result<u64, Event>|
            #[trigger] create_step(qc@, cr) && match cr {
                Ok(cc) => sum_outcome(
                    (|k: Seq<u8>, v: Seq<u8>, sr: Result<u64, Event>| upsert_step(qu@, k, v, sr)),
                    items,
                    cc,
                    r,
                ),
                Err(e) => r == Err::<u64, Event>(e),
            }))
}

/// Every outcome a fold allows under a stronger per-statement predicate it
/// also allows under a weaker one.
pub proof fn lemma_sum_outcome_weaken(
    step1: spec_fn(Seq<u8>, Seq<u8>, Result<u64, Event>) -> bool,
    step2: spec_fn(Seq<u8>, Seq<u8>, Result<u64, Event>) -> bool,
    items: Seq<Item<Vec<u8>, Vec<u8>>>,
    acc: u64,
    r: Result<u64, Event>,
)
    requires
        forall|k: Seq<u8>, v: Seq<u8>, sr: Result<u64, Event>|
            #[trigger] step1(k, v, sr) ==> step2(k, v, sr),
        sum_outcome(step1, items, acc, r),
    ensures
        sum_outcome(step2, items, acc, r),
    decreases items.len(),
{
    if items.len() > 0 {
        let sr = choose|sr: Result<u64, Event>|
            #[trigger] step1(items[0].key()@, items[0].val()@, sr) && match sr {
                Ok(c) => sum_outcome(step1, items.drop_first(), acc.saturating_add(c), r),
                Err(e) => r == Err::<u64, Event>(e),
            };
        if sr is Ok {
            lemma_sum_outcome_weaken(
                step1,
                step2,
                items.drop_first(),
                acc.saturating_add(sr->Ok_0),
                r,
            );
        }
        assert(step2(items[0].key()@, items[0].val()@, sr));
    }
}



/// Executes the upsert statement once per item of `items[idx..]` in issue
/// order against the transaction handle, summing the reported counts onto
/// `acc` (saturating at the largest count) and stopping at the first failure.
fn upsert_items_rec<U, T>(
    upsert: &U,
    transaction: &mut T,
    query_u: &str,
    items: &[Item<Vec<u8>, Vec<u8>>],
    idx: usize,
    acc: u64,
) -> (r: Result<u64, Event>) where U: Fn(&mut T, &str, &[u8], &[u8]) -> Result<u64, Event>,

    requires
        idx <= items@.len(),
        forall|t: &mut T, s: &str, k: &[u8], v: &[u8]|
            #[trigger] call_requires(*upsert, (t, s, k, v)),
    ensures
        sum_outcome(
            (|k: Seq<u8>, v: Seq<u8>, sr: Result<u64, Event>| upsert_exec_returns::<T, U>(
                *upsert,
                query_u@,
                k,
                v,
                sr,
            )),
            items@.subrange(idx as int, items@.len() as int),
            acc,
            r,
        ),
        idx == items@.len() ==> *final(transaction) == *old(transaction),
    decreases items@.len() - idx,
{
    let ghost fold_step = (|k: Seq<u8>, v: Seq<u8>, sr: Result<u64, Event>|
        upsert_exec_returns::<T, U>(*upsert, query_u@, k, v, sr));
    if idx >= items.len() {
        proof {
            assert(items@.subrange(idx as int, items@.len() as int).len() == 0);
        }
        return Ok(acc);
    }
    let key: &[u8] = items[idx].as_key().as_slice();
    let val: &[u8] = items[idx].as_val().as_slice();
    let sr = upsert(transaction, query_u, key, val);
    proof {
        assert(upsert_exec_returns::<T, U>(
            *upsert,
            query_u@,
            items@[idx as int].key()@,
            items@[idx as int].val()@,
            sr,
        ));
        assert(fold_step(items@[idx as int].key()@, items@[idx as int].val()@, sr));
    }
    match sr {
        Err(e) => {
            proof {
                let tail = items@.subrange(idx as int, items@.len() as int);
                assert(tail[0] == items@[idx as int]);
                assert(sum_outcome(fold_step, tail, acc, Err::<u64, Event>(e)));
            }
            Err(e)
        },
        Ok(c) => {
            let r = upsert_items_rec(
                upsert,
                transaction,
                query_u,
                items,
                idx + 1,
                acc.saturating_add(c),
            );
            proof {
                let tail = items@.subrange(idx as int, items@.len() as int);
                let tail1 = items@.subrange(idx as int + 1, items@.len() as int);
                assert(tail[0] == items@[idx as int]);
                assert(tail.drop_first() =~= tail1);
                assert(sum_outcome(fold_step, tail, acc, r));
            }
            r
        },
    }
}

/// Performs one whole upsert request: builds both statements, fails fast on
/// a builder failure without touching the handle, executes the create
/// statement once and the upsert statement once per item in issue order, and
/// sums the counts.  The contract also binds the create statement to the
/// handle as it stood on entry: when the builders can succeed, some create
/// execution on the entry state produced the create outcome, and a failing
/// create (or an item-less request) accounts for the handle's whole change.
fn upsert_one<C, U, B, T>(
    create: &C,
    upsert: &U,
    builder: &B,
    req: &BulkRequest<Vec<u8>, Vec<u8>>,
    transaction: &mut T,
) -> (r: Result<u64, Event>) where
    C: Fn(&mut T, &str) -> Result<u64, Event>,
    U: Fn(&mut T, &str, &[u8], &[u8]) -> Result<u64, Event>,
    B: UpsertBuilder,

    requires
        forall|name: Seq<char>| #[trigger] (*builder).create_req(name),
        forall|name: Seq<char>| #[trigger] (*builder).upsert_req(name),
        forall|t: &mut T, s: &str| #[trigger] call_requires(*create, (t, s)),
        forall|t: &mut T, s: &str, k: &[u8], v: &[u8]|
            #[trigger] call_requires(*upsert, (t, s, k, v)),
    ensures
        request_outcome(
            *builder,
            (|qc: Seq<char>, cr: Result<u64, Event>| create_exec_returns::<T, C>(*create, qc, cr)),
            (|qu: Seq<char>, k: Seq<u8>, v: Seq<u8>, sr: Result<u64, Event>|
                upsert_exec_returns::<T, U>(*upsert, qu, k, v, sr)),
            req.bucket()@,
            req.items(),
            r,
        ),
        req.items().len() == 0 ==> ((exists|qc: String, qu: String, m: &mut T, qs: &str|
            #![trigger (*builder).create_post(req.bucket()@, Ok(qc)), (*builder).upsert_post(req.bucket()@, Ok(qu)), call_ensures(*create, (m, qs), r)]
            (*builder).create_post(req.bucket()@, Ok(qc)) && (*builder).upsert_post(
                req.bucket()@,
                Ok(qu),
            ) && qs@ == qc@ && *m == *old(transaction) && *final(m) == *final(transaction)
                && call_ensures(*create, (m, qs), r)) || (r is Err && ((*builder).create_post(
            req.bucket()@,
            Err(r->Err_0),
        ) || ((exists|qc: String| #[trigger] (*builder).create_post(req.bucket()@, Ok(qc)))
            && (*builder).upsert_post(req.bucket()@, Err(r->Err_0)))) && *final(transaction)
            == *old(transaction))),
        ((exists|qc: String, qu: String, m: &mut T, qs: &str, cr: Result<u64, Event>|
            #![trigger (*builder).create_post(req.bucket()@, Ok(qc)), (*builder).upsert_post(req.bucket()@, Ok(qu)), call_ensures(*create, (m, qs), cr)]
            (*builder).create_post(req.bucket()@, Ok(qc)) && (*builder).upsert_post(req.bucket()@, Ok(qu)) && qs@
                == qc@ && *m == *old(transaction) && call_ensures(*create, (m, qs), cr) && (cr is Err ==> r
                == cr && *final(m) == *final(transaction))) || (r is Err && ((*builder).create_post(
            req.bucket()@,
            Err(r->Err_0),
        ) || ((exists|qc: String| #[trigger] (*builder).create_post(req.bucket()@, Ok(qc)))
            && (*builder).upsert_post(req.bucket()@, Err(r->Err_0)))) && *final(transaction) == *old(transaction))),
        ((forall|q: String| !(#[trigger] (*builder).create_post(req.bucket()@, Ok(q)))) || (forall|
            q: String,
        |
            !(#[trigger] (*builder).upsert_post(req.bucket()@, Ok(q))))) ==> *final(transaction)
            == *old(transaction),
{
    let ghost cstep = (|qc: Seq<char>, cr: Result<u64, Event>| create_exec_returns::<T, C>(
        *create,
        qc,
        cr,
    ));
    let ghost ustep = (|qu: Seq<char>, k: Seq<u8>, v: Seq<u8>, sr: Result<u64, Event>|
        upsert_exec_returns::<T, U>(*upsert, qu, k, v, sr));
    let ghost name = req.bucket()@;
    let b: &Bucket = req.as_bucket();
    let query_c: String = match builder.build_create(b) {
        Err(e) => {
            proof {
                assert((*builder).create_post(name, Err::<String, Event>(e)));
            }
            return Err(e);
        },
        Ok(q) => q,
    };
    proof {
        assert((*builder).create_post(name, Ok::<String, Event>(query_c)));
    }
    let query_u: String = match builder.build_upsert(b) {
        Err(e) => {
            proof {
                assert((*builder).upsert_post(name, Err::<String, Event>(e)));
            }
            return Err(e);
        },
        Ok(q) => q,
    };
    proof {
        assert((*builder).upsert_post(name, Ok::<String, Event>(query_u)));
    }
    let cnt_c: u64 = match create(transaction, query_c.as_str()) {
        Err(e) => {
            proof {
                assert(create_exec_returns::<T, C>(*create, query_c@, Err::<u64, Event>(e)));
                assert(cstep(query_c@, Err::<u64, Event>(e)));
            }
            return Err(e);
        },
        Ok(c) => c,
    };
    proof {
        assert(create_exec_returns::<T, C>(*create, query_c@, Ok::<u64, Event>(cnt_c)));
        assert(cstep(query_c@, Ok::<u64, Event>(cnt_c)));
    }
    let items: &[Item<Vec<u8>, Vec<u8>>] = req.as_items();
    let r = upsert_items_rec(upsert, transaction, query_u.as_str(), items, 0, cnt_c);
    proof {
        assert(items@.subrange(0, items@.len() as int) =~= items@);
        let ifold = (|k: Seq<u8>, v: Seq<u8>, sr: Result<u64, Event>| upsert_exec_returns::<
            T,
            U,
        >(*upsert, query_u@, k, v, sr));
        assert(sum_outcome(ifold, items@, cnt_c, r));
        let gstep = (|k: Seq<u8>, v: Seq<u8>, sr: Result<u64, Event>| ustep(query_u@, k, v, sr));
        assert forall|k: Seq<u8>, v: Seq<u8>, sr: Result<u64, Event>|
            #[trigger] ifold(k, v, sr) implies gstep(k, v, sr) by {}
        lemma_sum_outcome_weaken(ifold, gstep, items@, cnt_c, r);
        assert(sum_outcome(gstep, items@, cnt_c, r));
    }
    r
}

/// Creates a per-request upsert handler from a create executor, an upsert
/// executor and a statement builder; the handler performs one whole request
/// as `upsert_one` does and carries the same contract.
#[verifier::rlimit(50)]
fn upsert_bytes_new_mut<C, U, B, T>(create: C, upsert: U, builder: B) -> (f: impl Fn(
    &BulkRequest<Vec<u8>, Vec<u8>>,
    &mut T,
) -> Result<u64, Event>) where
    C: Fn(&mut T, &str) -> Result<u64, Event>,
    U: Fn(&mut T, &str, &[u8], &[u8]) -> Result<u64, Event>,
    B: UpsertBuilder,

    requires
        forall|name: Seq<char>| #[trigger] builder.create_req(name),
        forall|name: Seq<char>| #[trigger] builder.upsert_req(name),
        forall|t: &mut T, s: &str| #[trigger] call_requires(create, (t, s)),
        forall|t: &mut T, s: &str, k: &[u8], v: &[u8]|
            #[trigger] call_requires(upsert, (t, s, k, v)),
    ensures
        forall|rq: &BulkRequest<Vec<u8>, Vec<u8>>, t: &mut T| #[trigger] call_requires(f, (rq, t)),
        forall|rq: &BulkRequest<Vec<u8>, Vec<u8>>, t: &mut T, r: Result<u64, Event>|
            #[trigger] call_ensures(f, (rq, t), r) ==> request_outcome(
                builder,
                (|qc: Seq<char>, cr: Result<u64, Event>| create_exec_returns::<T, C>(
                    create,
                    qc,
                    cr,
                )),
                (|qu: Seq<char>, k: Seq<u8>, v: Seq<u8>, sr: Result<u64, Event>|
                    upsert_exec_returns::<T, U>(upsert, qu, k, v, sr)),
                rq.bucket()@,
                rq.items(),
                r,
            ),
        forall|rq: &BulkRequest<Vec<u8>, Vec<u8>>, t: &mut T, r: Result<u64, Event>|
            call_ensures(f, (rq, t), r) && rq.items().len() == 0 ==> ((exists|
                qc: String,
                qu: String,
                m: &mut T,
                qs: &str,
            |
                #![trigger builder.create_post(rq.bucket()@, Ok(qc)), builder.upsert_post(rq.bucket()@, Ok(qu)), call_ensures(create, (m, qs), r)]
                builder.create_post(rq.bucket()@, Ok(qc)) && builder.upsert_post(
                    rq.bucket()@,
                    Ok(qu),
                ) && qs@ == qc@ && *m == *t && *final(m) == *final(t) && call_ensures(
                    create,
                    (m, qs),
                    r,
                )) || (r is Err && (builder.create_post(rq.bucket()@, Err(r->Err_0)) || ((exists|
                qc: String,
            |
                #[trigger] builder.create_post(rq.bucket()@, Ok(qc))) && builder.upsert_post(
                rq.bucket()@,
                Err(r->Err_0),
            ))) && *final(t) == *t)),
        forall|rq: &BulkRequest<Vec<u8>, Vec<u8>>, t: &mut T, r: Result<u64, Event>|
            call_ensures(f, (rq, t), r) ==> ((exists|qc: String, qu: String, m: &mut T, qs: &str, cr: Result<u64, Event>|
                    #![trigger builder.create_post(rq.bucket()@, Ok(qc)), builder.upsert_post(rq.bucket()@, Ok(qu)), call_ensures(create, (m, qs), cr)]
                    builder.create_post(rq.bucket()@, Ok(qc)) && builder.upsert_post(rq.bucket()@, Ok(qu)) && qs@
                        == qc@ && *m == *t && call_ensures(create, (m, qs), cr) && (cr is Err ==> r
                        == cr && *final(m) == *final(t))) || (r is Err && (builder.create_post(
                    rq.bucket()@,
                    Err(r->Err_0),
                ) || ((exists|qc: String| #[trigger] builder.create_post(rq.bucket()@, Ok(qc)))
                    && builder.upsert_post(rq.bucket()@, Err(r->Err_0)))) && *final(t) == *t)),
        forall|rq: &BulkRequest<Vec<u8>, Vec<u8>>, t: &mut T, r: Result<u64, Event>|
            call_ensures(f, (rq, t), r) && ((forall|q: String|
                !(#[trigger] builder.create_post(rq.bucket()@, Ok(q)))) || (forall|q: String|
                !(#[trigger] builder.upsert_post(rq.bucket()@, Ok(q))))) ==> *final(t) == *t,
{
    move |req: &BulkRequest<Vec<u8>, Vec<u8>>, transaction: &mut T| -> (r: Result<u64, Event>)
        ensures
            request_outcome(
                builder,
                (|qc: Seq<char>, cr: Result<u64, Event>| create_exec_returns::<T, C>(
                    create,
                    qc,
                    cr,
                )),
                (|qu: Seq<char>, k: Seq<u8>, v: Seq<u8>, sr: Result<u64, Event>|
                    upsert_exec_returns::<T, U>(upsert, qu, k, v, sr)),
                req.bucket()@,
                req.items(),
                r,
            ),
            req.items().len() == 0 ==> ((exists|qc: String, qu: String, m: &mut T, qs: &str|
                #![trigger builder.create_post(req.bucket()@, Ok(qc)), builder.upsert_post(req.bucket()@, Ok(qu)), call_ensures(create, (m, qs), r)]
                builder.create_post(req.bucket()@, Ok(qc)) && builder.upsert_post(
                    req.bucket()@,
                    Ok(qu),
                ) && qs@ == qc@ && *m == *old(transaction) && *final(m) == *final(transaction)
                    && call_ensures(create, (m, qs), r)) || (r is Err && (builder.create_post(
                req.bucket()@,
                Err(r->Err_0),
            ) || ((exists|qc: String| #[trigger] builder.create_post(req.bucket()@, Ok(qc)))
                && builder.upsert_post(req.bucket()@, Err(r->Err_0)))) && *final(transaction)
                == *old(transaction))),
            ((exists|qc: String, qu: String, m: &mut T, qs: &str, cr: Result<u64, Event>|
                #![trigger builder.create_post(req.bucket()@, Ok(qc)), builder.upsert_post(req.bucket()@, Ok(qu)), call_ensures(create, (m, qs), cr)]
                builder.create_post(req.bucket()@, Ok(qc)) && builder.upsert_post(req.bucket()@, Ok(qu)) && qs@
                    == qc@ && *m == *old(transaction) && call_ensures(create, (m, qs), cr) && (cr is Err ==> r
                    == cr && *final(m) == *final(transaction))) || (r is Err && (builder.create_post(
                req.bucket()@,
                Err(r->Err_0),
            ) || ((exists|qc: String| #[trigger] builder.create_post(req.bucket()@, Ok(qc)))
                && builder.upsert_post(req.bucket()@, Err(r->Err_0)))) && *final(transaction) == *old(transaction))),
            ((forall|q: String| !(#[trigger] builder.create_post(req.bucket()@, Ok(q)))) || (
            forall|q: String|
                !(#[trigger] builder.upsert_post(req.bucket()@, Ok(q)))))
                ==> *final(transaction) == *old(transaction),
        {
            upsert_one(&create, &upsert, &builder, req, transaction)
        }
}

/// The possible outcomes of folding a sequence of requests in order, where
/// `per` gives the outcomes one request can have: the per-request counts are
/// summed onto `acc`, saturating at the largest count, and the first failing
/// request stops the fold, its failure becoming the overall outcome and the
/// partial total being discarded.
pub open spec fn batch_outcome(
    per: spec_fn(BulkRequest<Vec<u8>, Vec<u8>>, Result<u64, Event>) -> bool,
    reqs: Seq<BulkRequest<Vec<u8>, Vec<u8>>>,
    acc: u64,
    r: Result<u64, Event>,
) -> bool
    decreases reqs.len(),
{
    if reqs.len() == 0 {
        r == Ok::<u64, Event>(acc)
    } else {
        exists|sr: Result<u64, Event>|
            #[trigger] per(reqs[0], sr) && match sr {
                Ok(c) => batch_outcome(per, reqs.drop_first(), acc.saturating_add(c), r),
                Err(e) => r == Err::<u64, Event>(e),
            }
    }
}

/// Every outcome a batch fold allows under a stronger per-request predicate
/// it also allows under a weaker one.
pub proof fn lemma_batch_outcome_weaken(
    per1: spec_fn(BulkRequest<Vec<u8>, Vec<u8>>, Result<u64, Event>) -> bool,
    per2: spec_fn(BulkRequest<Vec<u8>, Vec<u8>>, Result<u64, Event>) -> bool,
    reqs: Seq<BulkRequest<Vec<u8>, Vec<u8>>>,
    acc: u64,
    r: Result<u64, Event>,
)
    requires
        forall|rq: BulkRequest<Vec<u8>, Vec<u8>>, sr: Result<u64, Event>|
            #[trigger] per1(rq, sr) ==> per2(rq, sr),
        batch_outcome(per1, reqs, acc, r),
    ensures
        batch_outcome(per2, reqs, acc, r),
    decreases reqs.len(),
{
    if reqs.len() > 0 {
        let sr = choose|sr: Result<u64, Event>|
            #[trigger] per1(reqs[0], sr) && match sr {
                Ok(c) => batch_outcome(per1, reqs.drop_first(), acc.saturating_add(c), r),
                Err(e) => r == Err::<u64, Event>(e),
            };
        if sr is Ok {
            lemma_batch_outcome_weaken(
                per1,
                per2,
                reqs.drop_first(),
                acc.saturating_add(sr->Ok_0),
                r,
            );
        }
        assert(per2(reqs[0], sr));
    }
}

/// Every outcome a request allows under stronger per-statement predicates it
/// also allows under weaker ones.
pub proof fn lemma_request_outcome_weaken<B: UpsertBuilder>(
    builder: B,
    cstep1: spec_fn(Seq<char>, Result<u64, Event>) -> bool,
    cstep2: spec_fn(Seq<char>, Result<u64, Event>) -> bool,
    ustep1: spec_fn(Seq<char>, Seq<u8>, Seq<u8>, Result<u64, Event>) -> bool,
    ustep2: spec_fn(Seq<char>, Seq<u8>, Seq<u8>, Result<u64, Event>) -> bool,
    name: Seq<char>,
    items: Seq<Item<Vec<u8>, Vec<u8>>>,
    r: Result<u64, Event>,
)
    requires
        forall|q: Seq<char>, cr: Result<u64, Event>| #[trigger] cstep1(q, cr) ==> cstep2(q, cr),
        forall|q: Seq<char>, k: Seq<u8>, v: Seq<u8>, sr: Result<u64, Event>|
            #[trigger] ustep1(q, k, v, sr) ==> ustep2(q, k, v, sr),
        request_outcome(builder, cstep1, ustep1, name, items, r),
    ensures
        request_outcome(builder, cstep2, ustep2, name, items, r),
{
    if exists|qc: String, qu: String|
        #[trigger] builder.create_post(name, Ok(qc)) && #[trigger] builder.upsert_post(
            name,
            Ok(qu),
        ) && (exists|cr: Result<u64, Event>|
            #[trigger] cstep1(qc@, cr) && match cr {
                Ok(cc) => sum_outcome(
                    (|k: Seq<u8>, v: Seq<u8>, sr: Result<u64, Event>| ustep1(qu@, k, v, sr)),
                    items,
                    cc,
                    r,
                ),
                Err(e) => r == Err::<u64, Event>(e),
            }) {
        let (qc, qu) = choose|qc: String, qu: String|
            #[trigger] builder.create_post(name, Ok(qc)) && #[trigger] builder.upsert_post(
                name,
                Ok(qu),
            ) && (exists|cr: Result<u64, Event>|
                #[trigger] cstep1(qc@, cr) && match cr {
                    Ok(cc) => sum_outcome(
                        (|k: Seq<u8>, v: Seq<u8>, sr: Result<u64, Event>| ustep1(qu@, k, v, sr)),
                        items,
                        cc,
                        r,
                    ),
                    Err(e) => r == Err::<u64, Event>(e),
                });
        let cr = choose|cr: Result<u64, Event>|
            #[trigger] cstep1(qc@, cr) && match cr {
                Ok(cc) => sum_outcome(
                    (|k: Seq<u8>, v: Seq<u8>, sr: Result<u64, Event>| ustep1(qu@, k, v, sr)),
                    items,
                    cc,
                    r,
                ),
                Err(e) => r == Err::<u64, Event>(e),
            };
        assert(cstep2(qc@, cr));
        if cr is Ok {
            lemma_sum_outcome_weaken(
                (|k: Seq<u8>, v: Seq<u8>, sr: Result<u64, Event>| ustep1(qu@, k, v, sr)),
                (|k: Seq<u8>, v: Seq<u8>, sr: Result<u64, Event>| ustep2(qu@, k, v, sr)),
                items,
                cr->Ok_0,
                r,
            );
        }
    }
}

/// Creates an upsert batch handler from a create executor, an upsert
/// executor and a statement builder, all working on a mutable transaction
/// handle.
///
/// The handler processes the requests in order: for each one it builds both
/// statements, fails fast on a builder failure, executes the create
/// statement once and the upsert statement once per item in issue order, and
/// sums every reported count (saturating at the largest count) into one
/// grand total.  The first failure aborts the whole fold; the partial total
/// is discarded and only the failure is returned.  When the first request's
/// builder cannot succeed, the handler fails before any executor has touched
/// the transaction handle, and an empty batch yields zero without touching
/// it at all.
pub fn upsert_bytes_all_new_mut<C, U, B, T>(create: C, upsert: U, builder: B) -> (f: impl Fn(
    Vec<BulkRequest<Vec<u8>, Vec<u8>>>,
    &mut T,
) -> Result<u64, Event>) where
    C: Fn(&mut T, &str) -> Result<u64, Event>,
    U: Fn(&mut T, &str, &[u8], &[u8]) -> Result<u64, Event>,
    B: UpsertBuilder,

    requires
        forall|name: Seq<char>| #[trigger] builder.create_req(name),
        forall|name: Seq<char>| #[trigger] builder.upsert_req(name),
        forall|t: &mut T, s: &str| #[trigger] call_requires(create, (t, s)),
        forall|t: &mut T, s: &str, k: &[u8], v: &[u8]|
            #[trigger] call_requires(upsert, (t, s, k, v)),
    ensures
        forall|reqs: Vec<BulkRequest<Vec<u8>, Vec<u8>>>, t: &mut T|
            #[trigger] call_requires(f, (reqs, t)),
        forall|reqs: Vec<BulkRequest<Vec<u8>, Vec<u8>>>, t: &mut T, r: Result<u64, Event>|
            #[trigger] call_ensures(f, (reqs, t), r) ==> batch_outcome(
                (|rq: BulkRequest<Vec<u8>, Vec<u8>>, sr: Result<u64, Event>| request_outcome(
                    builder,
                    (|qc: Seq<char>, cr: Result<u64, Event>| create_exec_returns::<T, C>(
                        create,
                        qc,
                        cr,
                    )),
                    (|qu: Seq<char>, k: Seq<u8>, v: Seq<u8>, sr2: Result<u64, Event>|
                        upsert_exec_returns::<T, U>(upsert, qu, k, v, sr2)),
                    rq.bucket()@,
                    rq.items(),
                    sr,
                )),
                reqs@,
                0u64,
                r,
            ),
        forall|reqs: Vec<BulkRequest<Vec<u8>, Vec<u8>>>, t: &mut T, r: Result<u64, Event>|
            call_ensures(f, (reqs, t), r) && reqs@.len() > 0 && ((forall|q: String|
                !(#[trigger] builder.create_post(reqs@[0].bucket()@, Ok(q)))) || (forall|
                q: String,
            |
                !(#[trigger] builder.upsert_post(reqs@[0].bucket()@, Ok(q))))) ==> *final(t)
                == *t,
        forall|reqs: Vec<BulkRequest<Vec<u8>, Vec<u8>>>, t: &mut T, r: Result<u64, Event>|
            call_ensures(f, (reqs, t), r) && reqs@.len() == 0 ==> r == Ok::<u64, Event>(0u64)
                && *final(t) == *t,
{
    let ghost gbuilder = builder;
    let ghost gcreate = create;
    let ghost gupsert = upsert;
    let one = upsert_bytes_new_mut(create, upsert, builder);
    move |requests: Vec<BulkRequest<Vec<u8>, Vec<u8>>>, transaction: &mut T| -> (r: Result<
        u64,
        Event,
    >)
        ensures
            batch_outcome(
                (|rq: BulkRequest<Vec<u8>, Vec<u8>>, sr: Result<u64, Event>| request_outcome(
                    gbuilder,
                    (|qc: Seq<char>, cr: Result<u64, Event>| create_exec_returns::<T, C>(
                        gcreate,
                        qc,
                        cr,
                    )),
                    (|qu: Seq<char>, k: Seq<u8>, v: Seq<u8>, sr2: Result<u64, Event>|
                        upsert_exec_returns::<T, U>(gupsert, qu, k, v, sr2)),
                    rq.bucket()@,
                    rq.items(),
                    sr,
                )),
                requests@,
                0u64,
                r,
            ),
            (requests@.len() > 0 && ((forall|q: String|
                !(#[trigger] gbuilder.create_post(requests@[0].bucket()@, Ok(q)))) || (forall|
                q: String,
            |
                !(#[trigger] gbuilder.upsert_post(requests@[0].bucket()@, Ok(q))))))
                ==> *final(transaction) == *old(transaction),
            requests@.len() == 0 ==> r == Ok::<u64, Event>(0u64) && *final(transaction) == *old(
                transaction,
            ),
        {
            let ghost per = (|rq: BulkRequest<Vec<u8>, Vec<u8>>, sr: Result<u64, Event>|
                request_outcome(
                    gbuilder,
                    (|qc: Seq<char>, cr: Result<u64, Event>| create_exec_returns::<T, C>(
                        gcreate,
                        qc,
                        cr,
                    )),
                    (|qu: Seq<char>, k: Seq<u8>, v: Seq<u8>, sr2: Result<u64, Event>|
                        upsert_exec_returns::<T, U>(gupsert, qu, k, v, sr2)),
                    rq.bucket()@,
                    rq.items(),
                    sr,
                ));
            let ghost short = requests@.len() > 0 && ((forall|q: String|
                !(#[trigger] gbuilder.create_post(requests@[0].bucket()@, Ok(q)))) || (forall|
                q: String,
            |
                !(#[trigger] gbuilder.upsert_post(requests@[0].bucket()@, Ok(q)))));
            let n = requests.len();
            let mut total: u64 = 0;
            let mut i: usize = 0;
            proof {
                assert(requests@.subrange(0, requests@.len() as int) =~= requests@);
            }
            #[verifier::loop_isolation(false)]
            while i < n
                invariant
                    0 <= i <= n,
                    n == requests@.len(),
                    forall|rr: Result<u64, Event>|
                        batch_outcome(
                            per,
                            #[trigger] requests@.subrange(i as int, n as int),
                            total,
                            rr,
                        ) ==> batch_outcome(per, requests@, 0u64, rr),
                    short ==> i == 0 && *transaction == *old(transaction),
                    requests@.len() == 0 ==> *transaction == *old(transaction),
                decreases n - i,
            {
                let ghost total0 = total;
                let ghost i0 = i as int;
                let sr = one(&requests[i], transaction);
                proof {
                    assert(per(requests@[i0], sr));
                }
                match sr {
                    Err(e) => {
                        proof {
                            let tail = requests@.subrange(i0, n as int);
                            assert(tail[0] == requests@[i0]);
                            assert(batch_outcome(per, tail, total0, Err::<u64, Event>(e)));
                            assert(batch_outcome(per, requests@, 0u64, Err::<u64, Event>(e)));
                        }
                        return Err(e);
                    },
                    Ok(c) => {
                        total = total.saturating_add(c);
                        i = i + 1;
                        proof {
                            let tail = requests@.subrange(i0, n as int);
                            let tail1 = requests@.subrange(i as int, n as int);
                            assert(tail[0] == requests@[i0]);
                            assert(tail.drop_first() =~= tail1);
                            assert forall|rr: Result<u64, Event>|
                                batch_outcome(
                                    per,
                                    #[trigger] requests@.subrange(i as int, n as int),
                                    total,
                                    rr,
                                ) implies batch_outcome(per, requests@, 0u64, rr) by {
                                assert(per(tail[0], Ok::<u64, Event>(c)));
                                assert(batch_outcome(per, tail, total0, rr));
                            }
                        }
                    },
                }
            }
            proof {
                let tail = requests@.subrange(n as int, n as int);
                assert(tail.len() == 0);
                assert(batch_outcome(per, tail, total, Ok::<u64, Event>(total)));
                assert(batch_outcome(per, requests@, 0u64, Ok::<u64, Event>(total)));
            }
            Ok(total)
        }
}

/// Holds when the create executor over a shared handle can return outcome
/// `r` when run with query text `query`.
pub open spec fn create_exec_returns_immutable<T, C: Fn(&T, &str) -> Result<u64, Event>>(
    create: C,
    query: Seq<char>,
    r: Result<u64, Event>,
) -> bool {
    exists|t: &T, q: &str| q@ == query && #[trigger] call_ensures(create, (t, q), r)
}

/// Holds when the upsert executor over a shared handle can return outcome
/// `r` when run with query text `query`, key bytes `key` and value bytes
/// `val`.
pub open spec fn upsert_exec_returns_immutable<
    T,
    U: Fn(&T, &str, &[u8], &[u8]) -> Result<u64, Event>,
>(
    upsert: U,
    query: Seq<char>,
    key: Seq<u8>,
    val: Seq<u8>,
    r: Result<u64, Event>,
) -> bool {
    exists|t: &T, q: &str, k: &[u8], v: &[u8]|
        q@ == query && k@ == key && v@ == val && #[trigger] call_ensures(upsert, (t, q, k, v), r)
}

/// Creates an upsert batch handler whose executors take the transaction
/// handle by shared reference.  The handler behaves exactly as the one made
/// by `upsert_bytes_all_new_mut`.
pub fn upsert_bytes_all_new_immutable<C, U, B, T>(create: C, upsert: U, builder: B) -> (f: impl Fn(
    Vec<BulkRequest<Vec<u8>, Vec<u8>>>,
    &mut T,
) -> Result<u64, Event>) where
    C: Fn(&T, &str) -> Result<u64, Event>,
    U: Fn(&T, &str, &[u8], &[u8]) -> Result<u64, Event>,
    B: UpsertBuilder,

    requires
        forall|name: Seq<char>| #[trigger] builder.create_req(name),
        forall|name: Seq<char>| #[trigger] builder.upsert_req(name),
        forall|t: &T, s: &str| #[trigger] call_requires(create, (t, s)),
        forall|t: &T, s: &str, k: &[u8], v: &[u8]| #[trigger] call_requires(upsert, (t, s, k, v)),
    ensures
        forall|reqs: Vec<BulkRequest<Vec<u8>, Vec<u8>>>, t: &mut T|
            #[trigger] call_requires(f, (reqs, t)),
        forall|reqs: Vec<BulkRequest<Vec<u8>, Vec<u8>>>, t: &mut T, r: Result<u64, Event>|
            #[trigger] call_ensures(f, (reqs, t), r) ==> batch_outcome(
                (|rq: BulkRequest<Vec<u8>, Vec<u8>>, sr: Result<u64, Event>| request_outcome(
                    builder,
                    (|qc: Seq<char>, cr: Result<u64, Event>| create_exec_returns_immutable::<
                        T,
                        C,
                    >(create, qc, cr)),
                    (|qu: Seq<char>, k: Seq<u8>, v: Seq<u8>, sr2: Result<u64, Event>|
                        upsert_exec_returns_immutable::<T, U>(upsert, qu, k, v, sr2)),
                    rq.bucket()@,
                    rq.items(),
                    sr,
                )),
                reqs@,
                0u64,
                r,
            ),
        forall|reqs: Vec<BulkRequest<Vec<u8>, Vec<u8>>>, t: &mut T, r: Result<u64, Event>|
            call_ensures(f, (reqs, t), r) && reqs@.len() > 0 && ((forall|q: String|
                !(#[trigger] builder.create_post(reqs@[0].bucket()@, Ok(q)))) || (forall|
                q: String,
            |
                !(#[trigger] builder.upsert_post(reqs@[0].bucket()@, Ok(q))))) ==> *final(t)
                == *t,
        forall|reqs: Vec<BulkRequest<Vec<u8>, Vec<u8>>>, t: &mut T, r: Result<u64, Event>|
            call_ensures(f, (reqs, t), r) && reqs@.len() == 0 ==> r == Ok::<u64, Event>(0u64)
                && *final(t) == *t,
{
    let gcreate: Ghost<C> = Ghost(create);
    let gupsert: Ghost<U> = Ghost(upsert);
    let c = move |mt: &mut T, query: &str| -> (cr: Result<u64, Event>)
        ensures
            create_exec_returns_immutable::<T, C>(gcreate@, query@, cr),
        {
            let cr = create(&*mt, query);
            proof {
                assert(create_exec_returns_immutable::<T, C>(gcreate@, query@, cr));
            }
            cr
        };
    let u = move |mt: &mut T, query: &str, key: &[u8], val: &[u8]| -> (sr: Result<u64, Event>)
        ensures
            upsert_exec_returns_immutable::<T, U>(gupsert@, query@, key@, val@, sr),
        {
            let sr = upsert(&*mt, query, key, val);
            proof {
                assert(upsert_exec_returns_immutable::<T, U>(gupsert@, query@, key@, val@, sr));
            }
            sr
        };
    let f0 = upsert_bytes_all_new_mut(c, u, builder);
    proof {
        let ghost per_mut = (|rq: BulkRequest<Vec<u8>, Vec<u8>>, sr: Result<u64, Event>|
            request_outcome(
                builder,
                (|qc: Seq<char>, cr: Result<u64, Event>| create_exec_returns::<T, _>(c, qc, cr)),
                (|qu: Seq<char>, k: Seq<u8>, v: Seq<u8>, sr2: Result<u64, Event>|
                    upsert_exec_returns::<T, _>(u, qu, k, v, sr2)),
                rq.bucket()@,
                rq.items(),
                sr,
            ));
        let ghost per_imm = (|rq: BulkRequest<Vec<u8>, Vec<u8>>, sr: Result<u64, Event>|
            request_outcome(
                builder,
                (|qc: Seq<char>, cr: Result<u64, Event>| create_exec_returns_immutable::<T, C>(
                    gcreate@,
                    qc,
                    cr,
                )),
                (|qu: Seq<char>, k: Seq<u8>, v: Seq<u8>, sr2: Result<u64, Event>|
                    upsert_exec_returns_immutable::<T, U>(gupsert@, qu, k, v, sr2)),
                rq.bucket()@,
                rq.items(),
                sr,
            ));
        assert forall|rq: BulkRequest<Vec<u8>, Vec<u8>>, sr: Result<u64, Event>|
            #[trigger] per_mut(rq, sr) implies per_imm(rq, sr) by {
            assert forall|qc: Seq<char>, cr: Result<u64, Event>|
                #[trigger] create_exec_returns::<T, _>(c, qc, cr) implies
                create_exec_returns_immutable::<T, C>(gcreate@, qc, cr) by {
                let (t, q): (&mut T, &str) = choose|t: &mut T, q: &str|
                    q@ == qc && #[trigger] call_ensures(c, (t, q), cr);
            }
            assert forall|qu: Seq<char>, k: Seq<u8>, v: Seq<u8>, sr2: Result<u64, Event>|
                #[trigger] upsert_exec_returns::<T, _>(u, qu, k, v, sr2) implies
                upsert_exec_returns_immutable::<T, U>(gupsert@, qu, k, v, sr2) by {
                let (t, q, kk, vv): (&mut T, &str, &[u8], &[u8]) = choose|
                    t: &mut T,
                    q: &str,
                    kk: &[u8],
                    vv: &[u8],
                |
                    q@ == qu && kk@ == k && vv@ == v && #[trigger] call_ensures(
                        u,
                        (t, q, kk, vv),
                        sr2,
                    );
            }
            lemma_request_outcome_weaken(
                builder,
                (|qc: Seq<char>, cr: Result<u64, Event>| create_exec_returns::<T, _>(c, qc, cr)),
                (|qc: Seq<char>, cr: Result<u64, Event>| create_exec_returns_immutable::<T, C>(
                    gcreate@,
                    qc,
                    cr,
                )),
                (|qu: Seq<char>, k: Seq<u8>, v: Seq<u8>, sr2: Result<u64, Event>|
                    upsert_exec_returns::<T, _>(u, qu, k, v, sr2)),
                (|qu: Seq<char>, k: Seq<u8>, v: Seq<u8>, sr2: Result<u64, Event>|
                    upsert_exec_returns_immutable::<T, U>(gupsert@, qu, k, v, sr2)),
                rq.bucket()@,
                rq.items(),
                sr,
            );
        }
        assert forall|reqs: Vec<BulkRequest<Vec<u8>, Vec<u8>>>, t: &mut T, r: Result<u64, Event>|
            #[trigger] call_ensures(f0, (reqs, t), r) implies batch_outcome(
            per_imm,
            reqs@,
            0u64,
            r,
        ) by {
            lemma_batch_outcome_weaken(per_mut, per_imm, reqs@, 0u64, r);
        }
    }
    f0
}

/// The number of statements a batch issues when every statement succeeds:
/// one create statement per request plus one upsert statement per item.
pub open spec fn batch_statement_count(reqs: Seq<BulkRequest<Vec<u8>, Vec<u8>>>) -> int
    decreases reqs.len(),
{
    if reqs.len() == 0 {
        0
    } else {
        1 + reqs[0].items().len() + batch_statement_count(reqs.drop_first())
    }
}

proof fn lemma_batch_statement_count_nonneg(reqs: Seq<BulkRequest<Vec<u8>, Vec<u8>>>)
    ensures
        batch_statement_count(reqs) >= 0,
    decreases reqs.len(),
{
    if reqs.len() > 0 {
        lemma_batch_statement_count_nonneg(reqs.drop_first());
    }
}

proof fn lemma_sum_outcome_unit_counts(
    step: spec_fn(Seq<u8>, Seq<u8>, Result<u64, Event>) -> bool,
    items: Seq<Item<Vec<u8>, Vec<u8>>>,
    acc: u64,
    r: Result<u64, Event>,
)
    requires
        forall|k: Seq<u8>, v: Seq<u8>, sr: Result<u64, Event>|
            #[trigger] step(k, v, sr) ==> sr == Ok::<u64, Event>(1u64),
        sum_outcome(step, items, acc, r),
        acc + items.len() <= u64::MAX,
    ensures
        r == Ok::<u64, Event>((acc + items.len()) as u64),
    decreases items.len(),
{
    if items.len() > 0 {
        let sr = choose|sr: Result<u64, Event>|
            #[trigger] step(items[0].key()@, items[0].val()@, sr) && match sr {
                Ok(c) => sum_outcome(step, items.drop_first(), acc.saturating_add(c), r),
                Err(e) => r == Err::<u64, Event>(e),
            };
        assert(sr == Ok::<u64, Event>(1u64));
        lemma_sum_outcome_unit_counts(step, items.drop_first(), (acc + 1) as u64, r);
    }
}

proof fn lemma_batch_outcome_unit_counts_rec<B: UpsertBuilder>(
    builder: B,
    cstep: spec_fn(Seq<char>, Result<u64, Event>) -> bool,
    ustep: spec_fn(Seq<char>, Seq<u8>, Seq<u8>, Result<u64, Event>) -> bool,
    reqs: Seq<BulkRequest<Vec<u8>, Vec<u8>>>,
    acc: u64,
    r: Result<u64, Event>,
)
    requires
        forall|name: Seq<char>, br: Result<String, Event>|
            #[trigger] builder.create_post(name, br) ==> br is Ok,
        forall|name: Seq<char>, br: Result<String, Event>|
            #[trigger] builder.upsert_post(name, br) ==> br is Ok,
        forall|q: Seq<char>, cr: Result<u64, Event>|
            #[trigger] cstep(q, cr) ==> cr == Ok::<u64, Event>(1u64),
        forall|q: Seq<char>, k: Seq<u8>, v: Seq<u8>, sr: Result<u64, Event>|
            #[trigger] ustep(q, k, v, sr) ==> sr == Ok::<u64, Event>(1u64),
        batch_outcome(
            (|rq: BulkRequest<Vec<u8>, Vec<u8>>, sr: Result<u64, Event>| request_outcome(
                builder,
                cstep,
                ustep,
                rq.bucket()@,
                rq.items(),
                sr,
            )),
            reqs,
            acc,
            r,
        ),
        acc + batch_statement_count(reqs) <= u64::MAX,
    ensures
        r == Ok::<u64, Event>((acc + batch_statement_count(reqs)) as u64),
    decreases reqs.len(),
{
    let per = (|rq: BulkRequest<Vec<u8>, Vec<u8>>, sr: Result<u64, Event>| request_outcome(
        builder,
        cstep,
        ustep,
        rq.bucket()@,
        rq.items(),
        sr,
    ));
    if reqs.len() > 0 {
        lemma_batch_statement_count_nonneg(reqs.drop_first());
        let sr = choose|sr: Result<u64, Event>|
            #[trigger] per(reqs[0], sr) && match sr {
                Ok(c) => batch_outcome(per, reqs.drop_first(), acc.saturating_add(c), r),
                Err(e) => r == Err::<u64, Event>(e),
            };
        let name = reqs[0].bucket()@;
        let items = reqs[0].items();
        assert(request_outcome(builder, cstep, ustep, name, items, sr));
        assert(!(exists|e: Event|
            #[trigger] builder.create_post(name, Err(e)) && sr == Err::<u64, Event>(e)));
        assert(!(exists|qc: String, e: Event|
            #[trigger] builder.create_post(name, Ok(qc)) && #[trigger] builder.upsert_post(
                name,
                Err(e),
            ) && sr == Err::<u64, Event>(e)));
        let (qc, qu) = choose|qc: String, qu: String|
            #[trigger] builder.create_post(name, Ok(qc)) && #[trigger] builder.upsert_post(
                name,
                Ok(qu),
            ) && (exists|cr: Result<u64, Event>|
                #[trigger] cstep(qc@, cr) && match cr {
                    Ok(cc) => sum_outcome(
                        (|k: Seq<u8>, v: Seq<u8>, sr2: Result<u64, Event>| ustep(qu@, k, v, sr2)),
                        items,
                        cc,
                        sr,
                    ),
                    Err(e) => sr == Err::<u64, Event>(e),
                });
        let cr = choose|cr: Result<u64, Event>|
            #[trigger] cstep(qc@, cr) && match cr {
                Ok(cc) => sum_outcome(
                    (|k: Seq<u8>, v: Seq<u8>, sr2: Result<u64, Event>| ustep(qu@, k, v, sr2)),
                    items,
                    cc,
                    sr,
                ),
                Err(e) => sr == Err::<u64, Event>(e),
            };
        assert(cr == Ok::<u64, Event>(1u64));
        assert(1 + items.len() <= u64::MAX);
        lemma_sum_outcome_unit_counts(
            (|k: Seq<u8>, v: Seq<u8>, sr2: Result<u64, Event>| ustep(qu@, k, v, sr2)),
            items,
            1u64,
            sr,
        );
        assert(sr == Ok::<u64, Event>((1 + items.len()) as u64));
        lemma_batch_outcome_unit_counts_rec(
            builder,
            cstep,
            ustep,
            reqs.drop_first(),
            (acc + 1 + items.len()) as u64,
            r,
        );
    }
}

/// Law (upsert aggregation): with builders that always succeed and executors
/// that report one affected row per statement, a batch yields exactly the
/// number of statements it issues: one create per request plus one upsert
/// per item; in particular an empty batch yields zero.
pub proof fn lemma_upsert_batch_unit_counts<B: UpsertBuilder>(
    builder: B,
    cstep: spec_fn(Seq<char>, Result<u64, Event>) -> bool,
    ustep: spec_fn(Seq<char>, Seq<u8>, Seq<u8>, Result<u64, Event>) -> bool,
    reqs: Seq<BulkRequest<Vec<u8>, Vec<u8>>>,
    r: Result<u64, Event>,
)
    requires
        forall|name: Seq<char>, br: Result<String, Event>|
            #[trigger] builder.create_post(name, br) ==> br is Ok,
        forall|name: Seq<char>, br: Result<String, Event>|
            #[trigger] builder.upsert_post(name, br) ==> br is Ok,
        forall|q: Seq<char>, cr: Result<u64, Event>|
            #[trigger] cstep(q, cr) ==> cr == Ok::<u64, Event>(1u64),
        forall|q: Seq<char>, k: Seq<u8>, v: Seq<u8>, sr: Result<u64, Event>|
            #[trigger] ustep(q, k, v, sr) ==> sr == Ok::<u64, Event>(1u64),
        batch_outcome(
            (|rq: BulkRequest<Vec<u8>, Vec<u8>>, sr: Result<u64, Event>| request_outcome(
                builder,
                cstep,
                ustep,
                rq.bucket()@,
                rq.items(),
                sr,
            )),
            reqs,
            0u64,
            r,
        ),
        batch_statement_count(reqs) <= u64::MAX,
    ensures
        r == Ok::<u64, Event>(batch_statement_count(reqs) as u64),
{
    lemma_batch_outcome_unit_counts_rec(builder, cstep, ustep, reqs, 0u64, r);
}

/// Law (round trip): converting a request preserves the bucket name and
/// yields exactly the encodings of the original keys and values, count and
/// order preserved, whenever each conversion function computes a fixed
/// encoding of its argument.
pub proof fn lemma_convert_request_encodes<K, V, F, G>(
    original: BulkRequest<K, V>,
    converted: BulkRequest<Vec<u8>, Vec<u8>>,
    key2bytes: F,
    val2bytes: G,
    enc_key: spec_fn(K) -> Seq<u8>,
    enc_val: spec_fn(V) -> Seq<u8>,
) where F: Fn(K) -> Vec<u8>, G: Fn(V) -> Vec<u8>,
    requires
        forall|k: K, b: Vec<u8>| #[trigger] call_ensures(key2bytes, (k,), b) ==> b@ == enc_key(k),
        forall|v: V, b: Vec<u8>| #[trigger] call_ensures(val2bytes, (v,), b) ==> b@ == enc_val(v),
        converted.bucket() == original.bucket(),
        converted.items().len() == original.items().len(),
        forall|i: int|
            0 <= i < original.items().len() ==> call_ensures(
                key2bytes,
                (original.items()[i].key(),),
                #[trigger] converted.items()[i].key(),
            ) && call_ensures(val2bytes, (original.items()[i].val(),), converted.items()[i].val()),
    ensures
        converted.bucket()@ == original.bucket()@,
        converted.items().len() == original.items().len(),
        forall|i: int|
            0 <= i < original.items().len() ==> (#[trigger] converted.items()[i].key())@
                == enc_key(original.items()[i].key()) && converted.items()[i].val()@ == enc_val(
                original.items()[i].val(),
            ),
{
}

} // verus!
