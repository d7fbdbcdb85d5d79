use vstd::prelude::*;
use vstd::utf8::encode_utf8;

verus! {

/// The number of hash buckets of a key index.
pub const BUCKET_COUNT: usize = 65536;

/// A polynomial hash of the bytes, reduced into the bucket range at each step.
pub open spec fn hash_bytes(b: Seq<u8>) -> nat
    decreases b.len(),
{
    if b.len() == 0 {
        0
    } else {
        (hash_bytes(b.drop_last()) * 31 + b.last() as nat) % (BUCKET_COUNT as nat)
    }
}

/// The bucket of a key: the hash of its UTF-8 encoding.
pub open spec fn bucket_of(k: Seq<char>) -> nat {
    hash_bytes(encode_utf8(k))
}

/// The positions of the keys that fall in bucket `b`, in increasing order.
pub open spec fn positions_in(keys: Seq<Seq<char>>, b: nat) -> Seq<usize>
    decreases keys.len(),
{
    if keys.len() == 0 {
        Seq::empty()
    } else {
        let prev = positions_in(keys.drop_last(), b);
        if bucket_of(keys.last()) == b {
            prev.push((keys.len() - 1) as usize)
        } else {
            prev
        }
    }
}

/// The positions at which `k` stands, in increasing order.
pub open spec fn positions_of(keys: Seq<Seq<char>>, k: Seq<char>) -> Seq<usize>
    decreases keys.len(),
{
    if keys.len() == 0 {
        Seq::empty()
    } else {
        let prev = positions_of(keys.drop_last(), k);
        if keys.last() == k {
            prev.push((keys.len() - 1) as usize)
        } else {
            prev
        }
    }
}

/// The positions among `ps` at which `k` stands, in the order of `ps`.
pub open spec fn matching(keys: Seq<Seq<char>>, ps: Seq<usize>, k: Seq<char>) -> Seq<usize>
    decreases ps.len(),
{
    if ps.len() == 0 {
        Seq::empty()
    } else {
        let prev = matching(keys, ps.drop_last(), k);
        if keys[ps.last() as int] == k {
            prev.push(ps.last())
        } else {
            prev
        }
    }
}

pub proof fn lemma_positions_in_bounded(keys: Seq<Seq<char>>, b: nat)
    requires
        keys.len() <= usize::MAX,
    ensures
        forall|i: int|
            0 <= i < positions_in(keys, b).len() ==> (#[trigger] positions_in(keys, b)[i]) < keys.len(),
    decreases keys.len(),
{
    if keys.len() > 0 {
        lemma_positions_in_bounded(keys.drop_last(), b);
        let prev = positions_in(keys.drop_last(), b);
        let cur = positions_in(keys, b);
        assert forall|i: int| 0 <= i < cur.len() implies (#[trigger] cur[i]) < keys.len() by {
            if i < prev.len() {
                assert(cur[i] == prev[i]);
            }
        }
    }
}

proof fn lemma_matching_extend(keys: Seq<Seq<char>>, x: Seq<char>, ps: Seq<usize>, k: Seq<char>)
    requires
        forall|i: int| 0 <= i < ps.len() ==> (#[trigger] ps[i]) < keys.len(),
    ensures
        matching(keys.push(x), ps, k) == matching(keys, ps, k),
    decreases ps.len(),
{
    if ps.len() > 0 {
        lemma_matching_extend(keys, x, ps.drop_last(), k);
        assert(ps.last() == ps[ps.len() - 1]);
    }
}

/// Scanning the bucket of `k` finds exactly the positions of `k`.
pub proof fn lemma_bucket_scan(keys: Seq<Seq<char>>, k: Seq<char>)
    requires
        keys.len() <= usize::MAX,
    ensures
        matching(keys, positions_in(keys, bucket_of(k)), k) == positions_of(keys, k),
    decreases keys.len(),
{
    if keys.len() > 0 {
        let b = bucket_of(k);
        let dl = keys.drop_last();
        lemma_bucket_scan(dl, k);
        lemma_positions_in_bounded(dl, b);
        assert(dl.push(keys.last()) =~= keys);
        lemma_matching_extend(dl, keys.last(), positions_in(dl, b), k);
        if bucket_of(keys.last()) == b {
            let n = (keys.len() - 1) as usize;
            assert(positions_in(dl, b).push(n).drop_last() =~= positions_in(dl, b));
        }
    }
}

/// Where `k` stands: every listed position holds `k`, and every position
/// that holds `k` is listed, in increasing order.
pub proof fn lemma_positions_of(keys: Seq<Seq<char>>, k: Seq<char>)
    requires
        keys.len() <= usize::MAX,
    ensures
        forall|i: int|
            0 <= i < positions_of(keys, k).len() ==> (#[trigger] positions_of(keys, k)[i]) < keys.len()
                && keys[positions_of(keys, k)[i] as int] == k,
        forall|j: int|
            0 <= j < keys.len() && keys[j] == k ==> positions_of(keys, k).contains(j as usize),
        positions_of(keys, k).len() > 0 ==> forall|l: int|
            positions_of(keys, k).last() < l < keys.len() ==> keys[l] != k,
    decreases keys.len(),
{
    if keys.len() > 0 {
        let dl = keys.drop_last();
        lemma_positions_of(dl, k);
        let prev = positions_of(dl, k);
        let cur = positions_of(keys, k);
        assert forall|i: int| 0 <= i < cur.len() implies (#[trigger] cur[i]) < keys.len() && keys[cur[i] as int] == k by {
            if i < prev.len() {
                assert(cur[i] == prev[i]);
                assert(keys[prev[i] as int] == dl[prev[i] as int]);
            }
        }
        assert forall|j: int| 0 <= j < keys.len() && keys[j] == k implies cur.contains(j as usize) by {
            if j < keys.len() - 1 {
                assert(dl[j] == keys[j]);
                let i = choose|i: int| 0 <= i < prev.len() && prev[i] == j as usize;
                assert(cur[i] == prev[i]);
            } else {
                assert(cur[cur.len() - 1] == j as usize);
            }
        }
        if cur.len() > 0 && keys.last() != k {
            assert forall|l: int| cur.last() < l < keys.len() implies keys[l] != k by {
                if l < keys.len() - 1 {
                    assert(dl[l] == keys[l]);
                }
            }
        }
    }
}

/// The positions of string keys, bucketed by a hash of each key.
///
/// vstd specifies `HashMap` and `HashSet` only for keys whose
/// `obeys_key_model` it establishes (integers, `bool`, boxes of them); for a
/// `String` key their contracts promise nothing, so the lookups here go
/// through this index, whose hash and buckets are verified.
pub struct KeyIndex {
    keys: Vec<String>,
    buckets: Vec<Vec<usize>>,
}

impl View for KeyIndex {
    type V = Seq<Seq<char>>;

    closed spec fn view(&self) -> Seq<Seq<char>> {
        self.keys@.map_values(|k: String| k@)
    }
}

/// The bucket of a key, computed over its bytes.
fn hash_key(k: &String) -> (r: usize)
    ensures
        r == bucket_of(k@),
        r < BUCKET_COUNT,
{
    let bytes = k.as_str().as_bytes();
    let mut h: usize = 0;
    let mut i: usize = 0;
    while i < bytes.len()
        invariant
            i <= bytes@.len(),
            bytes@ == encode_utf8(k@),
            h == hash_bytes(bytes@.take(i as int)),
            h < BUCKET_COUNT,
        decreases bytes@.len() - i,
    {
        assert(bytes@.take(i + 1).drop_last() =~= bytes@.take(i as int));
        h = (h * 31 + bytes[i] as usize) % BUCKET_COUNT;
        i = i + 1;
    }
    assert(bytes@.take(bytes@.len() as int) =~= bytes@);
    h
}

impl KeyIndex {
    pub closed spec fn wf(&self) -> bool {
        &&& self.buckets@.len() == BUCKET_COUNT
        &&& forall|b: int| 0 <= b < BUCKET_COUNT ==> (#[trigger] self.buckets@[b])@ == positions_in(self@, b as nat)
    }

    pub fn new() -> (r: KeyIndex)
        ensures
            r.wf(),
            r@ == Seq::<Seq<char>>::empty(),
    {
        let mut buckets: Vec<Vec<usize>> = Vec::new();
        let mut i: usize = 0;
        while i < BUCKET_COUNT
            invariant
                i <= BUCKET_COUNT,
                buckets@.len() == i,
                forall|b: int| 0 <= b < i ==> (#[trigger] buckets@[b])@ == Seq::<usize>::empty(),
            decreases BUCKET_COUNT - i,
        {
            buckets.push(Vec::new());
            i = i + 1;
        }
        let r = KeyIndex { keys: Vec::new(), buckets };
        assert(r@ =~= Seq::<Seq<char>>::empty());
        r
    }

    pub fn len(&self) -> (r: usize)
        ensures
            r == self@.len(),
    {
        self.keys.len()
    }

    pub fn key(&self, i: usize) -> (r: &String)
        requires
            i < self@.len(),
        ensures
            r@ == self@[i as int],
    {
        &self.keys[i]
    }

    /// Appends a key at the next position.
    pub fn push(&mut self, k: String)
        requires
            old(self).wf(),
        ensures
            final(self).wf(),
            final(self)@ == old(self)@.push(k@),
    {
        let b = hash_key(&k);
        let n = self.keys.len();
        let ghost old_keys = self@;
        self.keys.push(k);
        assert(self@ =~= old_keys.push(k@));
        let mut bucket: Vec<usize> = Vec::new();
        self.buckets.set_and_swap(b, &mut bucket);
        bucket.push(n);
        self.buckets.set_and_swap(b, &mut bucket);
        assert(self@.drop_last() =~= old_keys);
        assert forall|c: int| 0 <= c < BUCKET_COUNT implies (#[trigger] self.buckets@[c])@ == positions_in(
            self@,
            c as nat,
        ) by {
            assert(self@.last() == k@);
        }
    }

    /// The positions at which `k` stands, in increasing order.
    pub fn positions(&self, k: &String) -> (r: Vec<usize>)
        requires
            self.wf(),
        ensures
            r@ == positions_of(self@, k@),
    {
        let b = hash_key(k);
        let bucket = &self.buckets[b];
        let n = self.keys.len();
        assert(self@.len() == n);
        proof {
            lemma_positions_in_bounded(self@, b as nat);
            lemma_bucket_scan(self@, k@);
        }
        let mut found: Vec<usize> = Vec::new();
        let mut j: usize = 0;
        while j < bucket.len()
            invariant
                j <= bucket@.len(),
                bucket@ == positions_in(self@, b as nat),
                self@.len() == self.keys@.len(),
                forall|i: int| 0 <= i < bucket@.len() ==> (#[trigger] bucket@[i]) < self@.len(),
                found@ == matching(self@, bucket@.take(j as int), k@),
            decreases bucket@.len() - j,
        {
            assert(bucket@.take(j + 1).drop_last() =~= bucket@.take(j as int));
            let p = bucket[j];
            assert(self@[p as int] == self.keys@[p as int]@);
            if self.keys[p] == *k {
                found.push(p);
            }
            j = j + 1;
        }
        assert(bucket@.take(bucket@.len() as int) =~= bucket@);
        found
    }
}

} // verus!
