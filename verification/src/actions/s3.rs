//! Resolution of remote file sources: a file resource names a bucket, and
//! the name must resolve against the declared buckets before any fetch. An
//! unresolved bucket name is a fatal configuration error; the fetch itself
//! is performed by the surrounding application.

use vstd::prelude::*;
use crate::config::s3::Bucket;

verus! {

/// Whether some declared bucket carries the given name.
pub open spec fn has_bucket(buckets: Seq<Bucket>, name: Seq<char>) -> bool {
    exists|k: int| 0 <= k < buckets.len() && buckets[k].name@ == name
}

/// The index of the first declared bucket with the given name, from
/// position `i` on; the number of buckets when there is none.
pub open spec fn first_bucket_index(buckets: Seq<Bucket>, name: Seq<char>, i: int) -> int
    decreases buckets.len() - i,
{
    if i < 0 || i >= buckets.len() {
        buckets.len() as int
    } else if buckets[i].name@ == name {
        i
    } else {
        first_bucket_index(buckets, name, i + 1)
    }
}

/// Resolve a bucket name against the declared buckets: the first bucket
/// with that name, or `None` exactly when no declared bucket carries it.
pub fn find_bucket<'a>(buckets: &'a Vec<Bucket>, name: &String) -> (r: Option<&'a Bucket>)
    ensures
        match r {
            Option::Some(b) => {
                &&& has_bucket(buckets@, name@)
                &&& 0 <= first_bucket_index(buckets@, name@, 0) < buckets@.len()
                &&& *b == buckets@[first_bucket_index(buckets@, name@, 0)]
            },
            Option::None => !has_bucket(buckets@, name@),
        },
{
    let mut k: usize = 0;
    while k < buckets.len()
        invariant
            0 <= k <= buckets@.len(),
            forall|j: int| 0 <= j < k ==> buckets@[j].name@ != name@,
            first_bucket_index(buckets@, name@, 0) == first_bucket_index(buckets@, name@, k as int),
        decreases buckets@.len() - k,
    {
        if buckets[k].name.eq(name) {
            return Some(&buckets[k]);
        }
        k += 1;
        proof {
            assert(first_bucket_index(buckets@, name@, k - 1) == first_bucket_index(
                buckets@,
                name@,
                k as int,
            ));
        }
    }
    proof {
        if has_bucket(buckets@, name@) {
            let w = choose|j: int| 0 <= j < buckets@.len() && buckets@[j].name@ == name@;
            assert(buckets@[w].name@ != name@);
        }
    }
    None
}

} // verus!
