//! Generic containers of the compiler: cons lists, boxes, vectors and a string-keyed hash map.
use vstd::prelude::*;
use crate::text::{ByteString, spec_string_hash, string_eq, string_hash};

verus! {

// ------------------------------------------------------------------
// List
// ------------------------------------------------------------------

/// Generic cons list.
#[derive(Debug)]
pub enum List<T> {
    /// head, tail
    Cons(T, Box<List<T>>),
    Nil,
}

/// The elements of a list, front first.
pub open spec fn list_seq<T>(l: List<T>) -> Seq<T>
    decreases l,
{
    match l {
        List::Nil => Seq::empty(),
        List::Cons(head, tail) => seq![head] + list_seq(*tail),
    }
}

impl<T> View for List<T> {
    type V = Seq<T>;

    open spec fn view(&self) -> Seq<T> {
        list_seq(*self)
    }
}

/// Create an empty list.
pub fn list_new<T>() -> (r: List<T>)
    ensures
        r@ == Seq::<T>::empty(),
{
    List::Nil
}

fn list_appended<T>(list: List<T>, value: T) -> (r: List<T>)
    ensures
        r@ == list@.push(value),
    decreases list,
{
    match list {
        List::Nil => {
            let r = List::Cons(value, Box::new(List::Nil));
            assert(list_seq(List::<T>::Nil) =~= Seq::<T>::empty());
            assert(r@ =~= seq![value]);
            r
        },
        List::Cons(head, tail) => {
            let rest = list_appended(*tail, value);
            let r = List::Cons(head, Box::new(rest));
            assert(r@ =~= list@.push(value));
            r
        },
    }
}

/// Append one value at the end of a list.
pub fn list_append<T>(list: &mut List<T>, value: T)
    ensures
        final(list)@ == old(list)@.push(value),
{
    let mut current: List<T> = List::Nil;
    std::mem::swap(&mut current, list);
    *list = list_appended(current, value);
}

/// Clone a list with an explicit element clone function.
pub fn list_clone<T>(values: &List<T>, item_clone: impl Fn(&T) -> T + Copy) -> (r: List<T>)
    requires
        forall|x: &T| #[trigger] item_clone.requires((x,)),
    ensures
        r@.len() == values@.len(),
        forall|i: int| 0 <= i < values@.len() ==> item_clone.ensures((&values@[i],), #[trigger] r@[i]),
    decreases values,
{
    match values {
        List::Nil => List::Nil,
        List::Cons(head, tail) => {
            let h = item_clone(head);
            let t = list_clone(&**tail, item_clone);
            let r = List::Cons(h, Box::new(t));
            assert forall|i: int| 0 <= i < values@.len() implies item_clone.ensures(
                (&values@[i],),
                #[trigger] r@[i],
            ) by {
                if i > 0 {
                    assert(values@[i] == tail@[i - 1]);
                    assert(r@[i] == t@[i - 1]);
                }
            }
            r
        },
    }
}

/// Compare two lists in order with an element equality function.
pub fn list_eq<T>(left: &List<T>, right: &List<T>, item_eq: impl Fn(&T, &T) -> bool + Copy) -> (r:
    bool)
    requires
        forall|a: &T, b: &T| #[trigger] item_eq.requires((a, b)),
    ensures
        r ==> left@.len() == right@.len() && forall|i: int|
            0 <= i < left@.len() ==> item_eq.ensures((&left@[i], &right@[i]), true),
        !r ==> left@.len() != right@.len() || exists|i: int|
            0 <= i < left@.len() && i < right@.len() && item_eq.ensures(
                (&left@[i], &right@[i]),
                false,
            ),
    decreases left,
{
    match left {
        List::Nil => match right {
            List::Nil => true,
            _ => false,
        },
        List::Cons(lhead, ltail) => match right {
            List::Cons(rhead, rtail) => {
                let h = item_eq(lhead, rhead);
                let t = list_eq(&**ltail, &**rtail, item_eq);
                proof {
                    if h && t {
                        assert forall|i: int| 0 <= i < left@.len() implies item_eq.ensures(
                            (&left@[i], &right@[i]),
                            true,
                        ) by {
                            if i > 0 {
                                assert(left@[i] == ltail@[i - 1]);
                                assert(right@[i] == rtail@[i - 1]);
                            }
                        }
                    } else if !h {
                        assert(left@[0] == *lhead);
                        assert(right@[0] == *rhead);
                    } else {
                        if ltail@.len() == rtail@.len() {
                            let j = choose|j: int|
                                0 <= j < ltail@.len() && j < rtail@.len() && item_eq.ensures(
                                    (&ltail@[j], &rtail@[j]),
                                    false,
                                );
                            assert(left@[j + 1] == ltail@[j]);
                            assert(right@[j + 1] == rtail@[j]);
                        }
                    }
                }
                crate::text::and(h, t)
            },
            _ => false,
        },
    }
}

// ------------------------------------------------------------------
// Box
// ------------------------------------------------------------------

/// Put a value on the heap.
pub fn box_new<T>(value: T) -> (r: Box<T>)
    ensures
        *r == value,
{
    Box::new(value)
}

/// Borrow the boxed value.
pub fn box_deref<T>(ptr: &Box<T>) -> (r: &T)
    ensures
        *r == **ptr,
{
    &**ptr
}

/// Clone a boxed value with an explicit clone function.
pub fn box_clone<T>(ptr: &Box<T>, clone_fn: impl Fn(&T) -> T) -> (r: Box<T>)
    requires
        clone_fn.requires((&**ptr,)),
    ensures
        clone_fn.ensures((&**ptr,), *r),
{
    box_new::<T>(clone_fn(box_deref::<T>(ptr)))
}

// ------------------------------------------------------------------
// Vec
// ------------------------------------------------------------------

/// Create an empty vector.
pub fn vec_new<T>() -> (r: Vec<T>)
    ensures
        r@ == Seq::<T>::empty(),
{
    vec_with_capacity::<T>(10)
}

/// Create an empty vector with room for `initial_capacity` elements.
pub fn vec_with_capacity<T>(initial_capacity: usize) -> (r: Vec<T>)
    ensures
        r@ == Seq::<T>::empty(),
{
    let capacity: usize = if initial_capacity == 0 {
        1
    } else {
        initial_capacity
    };
    Vec::with_capacity(capacity)
}

/// The number of elements.
pub fn vec_len<T>(vec: &Vec<T>) -> (r: usize)
    ensures
        r == vec@.len(),
{
    vec.len()
}

/// Append one element.
pub fn vec_push<T>(vec: &mut Vec<T>, value: T)
    ensures
        final(vec)@ == old(vec)@.push(value),
{
    vec.push(value);
}

/// The element at `index`, if there is one.
pub fn vec_get<T>(vec: &Vec<T>, index: usize) -> (r: Option<&T>)
    ensures
        index < vec@.len() ==> r == Some(&vec@[index as int]),
        index >= vec@.len() ==> r is None,
{
    if index >= vec.len() {
        None
    } else {
        Some(&vec[index])
    }
}

/// Set the element at `index`; false if `index` is out of bounds.
pub fn vec_set<T>(vec: &mut Vec<T>, index: usize, value: T) -> (r: bool)
    ensures
        r == (index < old(vec)@.len()),
        r ==> final(vec)@ == old(vec)@.update(index as int, value),
        !r ==> final(vec)@ == old(vec)@,
{
    if index >= vec.len() {
        false
    } else {
        vec.set(index, value);
        true
    }
}

/// Append copies of all elements of `other`.
pub fn vec_extend<T: Copy>(vec: &mut Vec<T>, other: &Vec<T>)
    ensures
        final(vec)@ == old(vec)@ + other@,
{
    let n: usize = other.len();
    let mut i: usize = 0;
    while i < n
        invariant
            n == other@.len(),
            i <= n,
            vec@ == old(vec)@ + other@.subrange(0, i as int),
        decreases n - i,
    {
        vec.push(other[i]);
        i = i + 1;
        assert(vec@ =~= old(vec)@ + other@.subrange(0, i as int));
    }
    assert(other@.subrange(0, n as int) =~= other@);
}

/// Copy the first `n` elements of `src` over the first `n` of `dest`.
pub fn memcopy<T: Copy>(dest: &mut Vec<T>, src: &Vec<T>, n: usize)
    requires
        n <= old(dest)@.len(),
        n <= src@.len(),
    ensures
        final(dest)@ == src@.subrange(0, n as int) + old(dest)@.subrange(n as int, old(dest)@.len() as int),
{
    let mut i: usize = 0;
    while i < n
        invariant
            n <= src@.len(),
            n <= old(dest)@.len(),
            dest@.len() == old(dest)@.len(),
            i <= n,
            forall|k: int| 0 <= k < i ==> dest@[k] == src@[k],
            forall|k: int| i <= k < dest@.len() ==> dest@[k] == old(dest)@[k],
        decreases n - i,
    {
        dest.set(i, src[i]);
        i = i + 1;
    }
    assert(dest@ =~= src@.subrange(0, n as int) + old(dest)@.subrange(n as int, old(dest)@.len() as int));
}

// ------------------------------------------------------------------
// StringMap
// ------------------------------------------------------------------

/// Bucket entry of a `StringMap`.
#[derive(Debug)]
pub enum StringMapEntry<T> {
    Entry(ByteString, T),
}

/// The key of an entry.
pub fn stringMapEntry_get_key<T>(entry: &StringMapEntry<T>) -> (r: &ByteString)
    ensures
        entry matches StringMapEntry::Entry(k, _) && *r == k,
{
    let StringMapEntry::Entry(key, _) = entry;
    key
}

/// The value of an entry.
pub fn stringMapEntry_get_value<T>(entry: &StringMapEntry<T>) -> (r: &T)
    ensures
        entry matches StringMapEntry::Entry(_, v) && *r == v,
{
    let StringMapEntry::Entry(_, value) = entry;
    value
}

/// The value of the first entry of a bucket with key `k`.
pub open spec fn bucket_find<T>(l: List<StringMapEntry<T>>, k: Seq<u8>) -> Option<T>
    decreases l,
{
    match l {
        List::Nil => None,
        List::Cons(StringMapEntry::Entry(key, value), tail) => if key@ == k {
            Some(value)
        } else {
            bucket_find(*tail, k)
        },
    }
}

/// Hash map from string keys to values, as buckets of entry lists.
#[derive(Debug)]
pub enum StringMap<T> {
    Buckets(Vec<List<StringMapEntry<T>>>),
}

impl<T> StringMap<T> {
    pub open spec fn buckets(&self) -> Seq<List<StringMapEntry<T>>> {
        let StringMap::Buckets(b) = *self;
        b@
    }

    /// The bucket that holds key `k`.
    pub open spec fn bucket_of(&self, k: Seq<u8>) -> List<StringMapEntry<T>> {
        self.buckets()[spec_string_hash(k, self.buckets().len() as usize) as int]
    }

    /// A map has at least one bucket.
    pub open spec fn wf(&self) -> bool {
        0 < self.buckets().len() <= usize::MAX
    }
}

impl<T> View for StringMap<T> {
    type V = Map<Seq<u8>, T>;

    open spec fn view(&self) -> Map<Seq<u8>, T> {
        Map::new(
            |k: Seq<u8>| bucket_find(self.bucket_of(k), k) is Some,
            |k: Seq<u8>| bucket_find(self.bucket_of(k), k)->Some_0,
        )
    }
}

/// Create a map with 1024 buckets.
pub fn stringMap_new<T>() -> (r: StringMap<T>)
    ensures
        r.wf(),
        r@ == Map::<Seq<u8>, T>::empty(),
        r.buckets().len() == 1024,
{
    stringMap_with_len::<T>(1024)
}

/// Create a map with `len` buckets (at least one).
pub fn stringMap_with_len<T>(len: usize) -> (r: StringMap<T>)
    ensures
        r.wf(),
        r@ == Map::<Seq<u8>, T>::empty(),
        r.buckets().len() == if len == 0 {
            1
        } else {
            len
        },
{
    let bucket_len: usize = if len == 0 {
        1
    } else {
        len
    };
    let mut buckets: Vec<List<StringMapEntry<T>>> = vec_with_capacity(bucket_len);
    let mut i: usize = 0;
    while i < bucket_len
        invariant
            i <= bucket_len,
            buckets@.len() == i,
            forall|k: int| 0 <= k < i ==> buckets@[k] is Nil,
        decreases bucket_len - i,
    {
        vec_push(&mut buckets, List::Nil);
        i = i + 1;
    }
    let r = StringMap::Buckets(buckets);
    assert forall|k: Seq<u8>| !(#[trigger] r@.contains_key(k)) by {
        assert(r.bucket_of(k) is Nil);
    }
    assert(r@ =~= Map::<Seq<u8>, T>::empty());
    r
}

/// Insert a key/value pair; a later insert of the same key shadows earlier ones.
pub fn stringMap_insert<T>(map: &mut StringMap<T>, key: ByteString, value: T)
    requires
        old(map).wf(),
    ensures
        final(map).wf(),
        final(map)@ == old(map)@.insert(key@, value),
        final(map).buckets().len() == old(map).buckets().len(),
{
    let ghost kv = key@;
    let StringMap::Buckets(buckets) = map;
    let bucket_index: usize = string_hash(&key, buckets.len());
    let mut old_bucket: List<StringMapEntry<T>> = List::Nil;
    std::mem::swap(&mut old_bucket, &mut buckets[bucket_index]);
    buckets.set(
        bucket_index,
        List::Cons(StringMapEntry::Entry(key, value), Box::new(old_bucket)),
    );
    proof {
        assert forall|k: Seq<u8>| #[trigger] map@.contains_key(k) == old(map)@.insert(
            kv,
            value,
        ).contains_key(k) && (map@.contains_key(k) ==> map@[k] == old(map)@.insert(
            kv,
            value,
        )[k]) by {
            if spec_string_hash(k, map.buckets().len() as usize) == bucket_index {
            } else {
                assert(map.bucket_of(k) == old(map).bucket_of(k));
            }
        }
        assert(map@ =~= old(map)@.insert(kv, value));
    }
}

/// The value for `key`, if any.
pub fn stringMap_get<'a, T>(map: &'a StringMap<T>, key: &ByteString) -> (r: Option<&'a T>)
    requires
        map.wf(),
    ensures
        match r {
            Some(v) => map@.contains_key(key@) && map@[key@] == *v,
            None => !map@.contains_key(key@),
        },
{
    let StringMap::Buckets(buckets) = map;
    let bucket_index: usize = string_hash(key, buckets.len());
    let mut bucket: &List<StringMapEntry<T>> = &buckets[bucket_index];
    loop
        invariant
            bucket_find(*bucket, key@) == bucket_find(map.bucket_of(key@), key@),
        decreases *bucket,
    {
        match bucket {
            List::Cons(entry, tail) => {
                let other_key: &ByteString = stringMapEntry_get_key::<T>(entry);
                if string_eq(other_key, key) {
                    return Some(stringMapEntry_get_value::<T>(entry));
                }
                bucket = &**tail;
            },
            List::Nil => return None,
        }
    }
}

/// A read after a write gives what was written, and leaves every other key
/// as it was.
pub proof fn law_string_map_read_after_write<T>(m: Map<Seq<u8>, T>, key: Seq<u8>, value: T, other: Seq<u8>)
    ensures
        m.insert(key, value).contains_key(key),
        m.insert(key, value)[key] == value,
        other != key ==> m.insert(key, value).contains_key(other) == m.contains_key(other),
        other != key && m.contains_key(other) ==> m.insert(key, value)[other] == m[other],
{
}

/// Whether `key` has a value.
pub fn stringMap_contains<T>(map: &StringMap<T>, key: &ByteString) -> (r: bool)
    requires
        map.wf(),
    ensures
        r == map@.contains_key(key@),
{
    match stringMap_get::<T>(map, key) {
        Some(_) => true,
        None => false,
    }
}

} // verus!
