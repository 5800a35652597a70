//! The element store: signed headers with their entries, addressed by
//! content hash, as persisted plus what was staged since.
use crate::hash::{EntryHash, HeaderHash};
use crate::header::{Element, EntryHashed, SignedHeaderHashed};
use vstd::prelude::*;

verus! {

/// Index `i` holds the first element of `s` at address `h`.
pub open spec fn first_element_at(s: Seq<Element>, h: HeaderHash, i: int) -> bool {
    &&& 0 <= i < s.len()
    &&& s[i].address() == h
    &&& forall|j: int| 0 <= j < i ==> s[j].address() != h
}

pub open spec fn has_element(s: Seq<Element>, h: HeaderHash) -> bool {
    exists|i: int| 0 <= i < s.len() && s[i].address() == h
}

/// The first element of `s` at address `h`.
pub open spec fn lookup_element(s: Seq<Element>, h: HeaderHash) -> Option<Element> {
    if has_element(s, h) {
        Some(s[choose|i: int| first_element_at(s, h, i)])
    } else {
        None
    }
}

pub open spec fn carries_entry(e: Element, h: EntryHash) -> bool {
    match e.entry {
        Some(x) => x.entry_hash == h,
        None => false,
    }
}

pub open spec fn first_entry_at(s: Seq<Element>, h: EntryHash, i: int) -> bool {
    &&& 0 <= i < s.len()
    &&& carries_entry(s[i], h)
    &&& forall|j: int| 0 <= j < i ==> !carries_entry(s[j], h)
}

/// The entry at address `h` of the first element of `s` that carries one.
pub open spec fn lookup_entry(s: Seq<Element>, h: EntryHash) -> Option<EntryHashed> {
    if exists|i: int| 0 <= i < s.len() && carries_entry(s[i], h) {
        s[choose|i: int| first_entry_at(s, h, i)].entry
    } else {
        None
    }
}

pub proof fn lemma_first_element_unique(s: Seq<Element>, h: HeaderHash, i: int)
    requires
        first_element_at(s, h, i),
    ensures
        lookup_element(s, h) == Some(s[i]),
{
    let k = choose|k: int| first_element_at(s, h, k);
    assert(first_element_at(s, h, k));
    if k < i {
        assert(s[k].address() != h);
    } else if i < k {
        assert(s[i].address() != h);
    }
}

pub proof fn lemma_first_entry_unique(s: Seq<Element>, h: EntryHash, i: int)
    requires
        first_entry_at(s, h, i),
    ensures
        lookup_entry(s, h) == s[i].entry,
{
    let k = choose|k: int| first_entry_at(s, h, k);
    assert(first_entry_at(s, h, k));
    if k < i {
        assert(!carries_entry(s[k], h));
    } else if i < k {
        assert(!carries_entry(s[i], h));
    }
}

/// Persisted elements, read in place, and elements staged since.
#[derive(Debug)]
pub struct ElementBuf<'a> {
    persisted: &'a Vec<Element>,
    scratch: Vec<Element>,
}

impl<'a> ElementBuf<'a> {
    pub closed spec fn persisted(self) -> Seq<Element> {
        self.persisted@
    }

    pub closed spec fn scratch(self) -> Seq<Element> {
        self.scratch@
    }

    /// Everything this buffer sees: persisted first, then staged.
    pub open spec fn all(self) -> Seq<Element> {
        self.persisted() + self.scratch()
    }

    pub fn new(persisted: &'a Vec<Element>) -> (r: ElementBuf<'a>)
        ensures
            r.persisted() == persisted@,
            r.scratch() == Seq::<Element>::empty(),
    {
        ElementBuf { persisted, scratch: Vec::new() }
    }

    fn find(&self, h: &HeaderHash) -> (r: Option<&Element>)
        ensures
            match r {
                Some(e) => exists|i: int| first_element_at(self.all(), *h, i) && self.all()[i] == *e,
                None => !has_element(self.all(), *h),
            },
    {
        let n = self.persisted.len();
        let mut i: usize = 0;
        while i < n
            invariant
                n == self.persisted@.len(),
                i <= n,
                forall|j: int| 0 <= j < i ==> self.all()[j].address() != *h,
            decreases n - i,
        {
            if self.persisted[i].signed_header.header_address == *h {
                assert(first_element_at(self.all(), *h, i as int));
                return Some(&self.persisted[i]);
            }
            i = i + 1;
        }
        let mut k: usize = 0;
        while k < self.scratch.len()
            invariant
                n == self.persisted@.len(),
                k <= self.scratch@.len(),
                forall|j: int| 0 <= j < n + k ==> self.all()[j].address() != *h,
            decreases self.scratch@.len() - k,
        {
            if self.scratch[k].signed_header.header_address == *h {
                assert(first_element_at(self.all(), *h, n + k));
                return Some(&self.scratch[k]);
            }
            k = k + 1;
        }
        None
    }

    /// The element at address `h`.
    pub fn get_element(&self, h: &HeaderHash) -> (r: Option<&Element>)
        ensures
            match r {
                Some(e) => lookup_element(self.all(), *h) == Some(*e),
                None => lookup_element(self.all(), *h) is None,
            },
    {
        match self.find(h) {
            Some(e) => {
                proof {
                    let i = choose|i: int| first_element_at(self.all(), *h, i) && self.all()[i] == *e;
                    lemma_first_element_unique(self.all(), *h, i);
                }
                Some(e)
            },
            None => None,
        }
    }

    /// The signed header at address `h`.
    pub fn get_header(&self, h: &HeaderHash) -> (r: Option<&SignedHeaderHashed>)
        ensures
            match r {
                Some(s) => lookup_element(self.all(), *h) is Some && lookup_element(
                    self.all(),
                    *h,
                )->Some_0.signed_header == *s,
                None => lookup_element(self.all(), *h) is None,
            },
    {
        match self.get_element(h) {
            Some(e) => Some(&e.signed_header),
            None => None,
        }
    }

    /// The entry at address `h`.
    pub fn get_entry(&self, h: &EntryHash) -> (r: Option<&EntryHashed>)
        ensures
            match r {
                Some(e) => lookup_entry(self.all(), *h) == Some(*e),
                None => lookup_entry(self.all(), *h) is None,
            },
    {
        let n = self.persisted.len();
        let mut i: usize = 0;
        while i < n
            invariant
                n == self.persisted@.len(),
                i <= n,
                forall|j: int| 0 <= j < i ==> !carries_entry(self.all()[j], *h),
            decreases n - i,
        {
            match &self.persisted[i].entry {
                Some(x) => {
                    if x.entry_hash == *h {
                        proof {
                            assert(self.all()[i as int] == self.persisted@[i as int]);
                            lemma_first_entry_unique(self.all(), *h, i as int);
                        }
                        return Some(x);
                    }
                },
                None => {},
            }
            i = i + 1;
        }
        let mut k: usize = 0;
        while k < self.scratch.len()
            invariant
                n == self.persisted@.len(),
                k <= self.scratch@.len(),
                forall|j: int| 0 <= j < n + k ==> !carries_entry(self.all()[j], *h),
            decreases self.scratch@.len() - k,
        {
            match &self.scratch[k].entry {
                Some(x) => {
                    if x.entry_hash == *h {
                        proof {
                            assert(self.all()[n + k] == self.scratch@[k as int]);
                            lemma_first_entry_unique(self.all(), *h, n + k);
                        }
                        return Some(x);
                    }
                },
                None => {},
            }
            k = k + 1;
        }
        None
    }

    /// Stages an element.
    pub fn put(&mut self, signed_header: SignedHeaderHashed, maybe_entry: Option<EntryHashed>)
        ensures
            final(self).persisted() == old(self).persisted(),
            final(self).scratch() == old(self).scratch().push(
                Element { signed_header, entry: maybe_entry },
            ),
    {
        self.scratch.push(Element { signed_header, entry: maybe_entry });
    }

    /// Moves the staged elements out of the buffer.
    pub fn take_scratch(&mut self) -> (r: Vec<Element>)
        ensures
            r@ == old(self).scratch(),
            final(self).persisted() == old(self).persisted(),
            final(self).scratch() == Seq::<Element>::empty(),
    {
        let mut out = Vec::new();
        core::mem::swap(&mut out, &mut self.scratch);
        out
    }
}

} // verus!
