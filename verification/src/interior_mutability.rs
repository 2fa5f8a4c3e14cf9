use vstd::prelude::*;

verus! {

/// A counter that starts at zero and only counts up.
pub struct Counter {
    count: i32,
}

impl Counter {
    /// The current count.
    pub closed spec fn current(self) -> int {
        self.count as int
    }

    /// A counter at zero.
    pub fn new() -> (c: Self)
        ensures
            c.current() == 0,
    {
        Self { count: 0 }
    }

    /// Adds one to the count.
    pub fn increment(&mut self)
        requires
            old(self).current() < i32::MAX,
        ensures
            final(self).current() == old(self).current() + 1,
    {
        let current = self.count;
        self.count = current + 1;
    }

    /// The current count.
    pub fn value(&self) -> (v: i32)
        ensures
            v == self.current(),
    {
        self.count
    }
}

/// Each value of `raw` doubled, in order.
pub open spec fn doubled(raw: Seq<i32>) -> Seq<int> {
    raw.map_values(|v: i32| 2 * v)
}

/// Doubling keeps the length and doubles every value in place.
pub proof fn law_doubled_doubles_each_value(raw: Seq<i32>)
    ensures
        doubled(raw).len() == raw.len(),
        forall|i: int| 0 <= i < raw.len() ==> #[trigger] doubled(raw)[i] == 2 * raw[i],
{
}

/// Whether every value of `raw` can be doubled within `i32`.
pub open spec fn doubles_fit(raw: Seq<i32>) -> bool {
    forall|i: int| 0 <= i < raw.len() ==> i32::MIN <= 2 * #[trigger] raw[i] <= i32::MAX
}

/// Raw data together with a cache of its doubled values, computed on the
/// first request and reused afterwards.
pub struct DataCache {
    computed: Vec<i32>,
    raw_data: Vec<i32>,
}

impl DataCache {
    /// The raw data the cache was made from; it never changes.
    pub closed spec fn raw(self) -> Seq<i32> {
        self.raw_data@
    }

    /// What the cache holds.
    pub closed spec fn cached(self) -> Seq<i32> {
        self.computed@
    }

    /// Whether the cache holds nothing yet.
    pub open spec fn cache_is_empty(self) -> bool {
        self.cached().len() == 0
    }

    #[verifier::type_invariant]
    closed spec fn cache_is_valid(self) -> bool {
        self.cache_matches_raw()
    }

    /// The cache is either still empty or holds the doubled raw data.
    pub open spec fn cache_matches_raw(self) -> bool {
        self.cache_is_empty() || self.cached().map_values(|v: i32| v as int) == doubled(self.raw())
    }

    /// A cache over `data` with nothing computed yet.
    pub fn new(data: Vec<i32>) -> (c: Self)
        ensures
            c.cache_matches_raw(),
            c.raw() == data@,
            c.cache_is_empty(),
    {
        Self { computed: Vec::new(), raw_data: data }
    }

    /// The doubled raw data: computed into the cache when the cache is
    /// empty, read from it otherwise. Every call gives the same result.
    pub fn get_computed(&mut self) -> (result: Vec<i32>)
        requires
            doubles_fit(old(self).raw()),
        ensures
            final(self).cache_matches_raw(),
            final(self).raw() == old(self).raw(),
            result@.map_values(|v: i32| v as int) == doubled(old(self).raw()),
            result@.len() == old(self).raw().len(),
            forall|i: int| 0 <= i < result@.len() ==> #[trigger] result@[i] == 2 * old(self).raw()[i],
            final(self).cached() == result@,
            !old(self).cache_is_empty() ==> final(self).cached() == old(self).cached(),
    {
        proof {
            use_type_invariant(&*self);
        }
        let mut cache: Vec<i32> = Vec::new();
        std::mem::swap(&mut self.computed, &mut cache);
        if cache.len() == 0 {
            let n = self.raw_data.len();
            let mut i: usize = 0;
            while i < n
                invariant
                    n == self.raw_data@.len(),
                    self.raw_data@ == old(self).raw_data@,
                    i <= n,
                    cache@.len() == i,
                    doubles_fit(self.raw_data@),
                    forall|j: int| 0 <= j < i ==> cache@[j] == 2 * self.raw_data@[j],
                decreases n - i,
            {
                let val = self.raw_data[i];
                cache.push(val * 2);
                i = i + 1;
            }
            proof {
                assert(cache@.map_values(|v: i32| v as int) =~= doubled(self.raw_data@));
            }
        }
        let result = cache.clone();
        proof {
            law_doubled_doubles_each_value(self.raw_data@);
            assert forall|i: int| 0 <= i < result@.len() implies #[trigger] result@[i] == 2
                * self.raw_data@[i] by {
                assert(result@.map_values(|v: i32| v as int)[i] == doubled(self.raw_data@)[i]);
            }
            assert(result@.map_values(|v: i32| v as int) =~= cache@.map_values(|v: i32| v as int));
            if cache@.len() > 0 {
                assert(doubled(self.raw_data@).len() == cache@.len());
            }
        }
        self.computed = cache;
        result
    }
}

} // verus!
