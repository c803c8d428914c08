use vstd::prelude::*;

use crate::evt::Event;

verus! {

/// A container identifier which may hold many key/value pairs.
///
/// The view of a bucket is the sequence of characters of its name; no
/// validity invariant is imposed here, and the name is interpolated verbatim
/// into generated query text by the default builders.
pub struct Bucket {
    name: String,
}

impl View for Bucket {
    type V = Seq<char>;

    closed spec fn view(&self) -> Seq<char> {
        self.name@
    }
}

impl Bucket {
    /// Gets the bucket name as `&str`.
    pub fn as_str(&self) -> (r: &str)
        ensures
            r@ == self@,
    {
        self.name.as_str()
    }
}

impl From<String> for Bucket {
    /// Wraps a name string as a bucket, keeping the characters unchanged.
    fn from(name: String) -> (r: Self)
        ensures
            r@ == name@,
    {
        Bucket { name }
    }
}

impl vstd::std_specs::convert::FromSpecImpl<String> for Bucket {
    open spec fn obeys_from_spec() -> bool {
        true
    }

    closed spec fn from_spec(name: String) -> Bucket {
        Bucket { name }
    }
}

/// Holds when `checker` can decide outcome `r` for a bucket named `name`.
pub open spec fn checker_returns<C: Fn(&Bucket) -> Result<(), Event>>(
    checker: C,
    name: Seq<char>,
    r: Result<(), Event>,
) -> bool {
    exists|b: &Bucket| b@ == name && #[trigger] call_ensures(checker, (b,), r)
}

/// Holds when the query builder `builder` can produce outcome `r` for a
/// bucket named `name`.
pub open spec fn builder_returns<B: Fn(&Bucket) -> Result<String, Event>>(
    builder: B,
    name: Seq<char>,
    r: Result<String, Event>,
) -> bool {
    exists|b: &Bucket| b@ == name && #[trigger] call_ensures(builder, (b,), r)
}

/// Creates a bucket checker which accepts every bucket name.
pub fn bucket_checker_new_unchecked() -> (f: impl Fn(&Bucket) -> Result<(), Event>)
    ensures
        forall|b: &Bucket| #[trigger] call_requires(f, (b,)),
        forall|b: &Bucket, r: Result<(), Event>|
            #[trigger] call_ensures(f, (b,), r) ==> r == Ok::<(), Event>(()),
{
    (move |_b: &Bucket| -> (r: Result<(), Event>)
        ensures
            r == Ok::<(), Event>(()),
        {
            Ok(())
        })
}

} // verus!
