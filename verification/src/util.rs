//! Small helpers shared by the parsers.
use vstd::prelude::*;

verus! {

broadcast use vstd::string::group_string_axioms;

/// The characters of `s`, in order.
pub fn str_chars(s: &str) -> (v: Vec<char>)
    ensures
        v@ == s@,
{
    let mut v: Vec<char> = Vec::new();
    for c in it: s.chars()
        invariant
            v@ == it.seq().take(it.index() as int),
    {
        v.push(c);
    }
    v
}

/// Appends one character to a string.
#[verifier::external_body]
pub(crate) fn push_char(s: &mut String, c: char)
    ensures
        final(s)@ == old(s)@.push(c),
{
    s.push(c)
}

/// A string holding exactly the characters of `chars`.
pub fn string_from_chars(chars: &[char]) -> (r: String)
    ensures
        r@ == chars@,
{
    let mut r = String::new();
    let mut i: usize = 0;
    while i < chars.len()
        invariant
            i <= chars@.len(),
            r@ == chars@.subrange(0, i as int),
        decreases chars@.len() - i,
    {
        push_char(&mut r, chars[i]);
        i = i + 1;
        assert(chars@.subrange(0, i as int) == chars@.subrange(0, i - 1).push(chars@[i - 1]));
    }
    assert(chars@.subrange(0, chars@.len() as int) == chars@);
    r
}

/// Cursor over a sequence of items that can look an arbitrary distance ahead.
#[derive(Debug)]
pub struct NPeekable<T: Copy> {
    items: Vec<T>,
    pos: usize,
}

impl<T: Copy> View for NPeekable<T> {
    type V = Seq<T>;

    /// The items not yet consumed.
    closed spec fn view(&self) -> Seq<T> {
        self.items@.subrange(self.pos as int, self.items@.len() as int)
    }
}

impl<T: Copy> NPeekable<T> {
    #[verifier::type_invariant]
    spec fn inv(self) -> bool {
        self.pos <= self.items@.len()
    }

    /// Creates a cursor positioned before the first item.
    pub fn new(items: Vec<T>) -> (r: NPeekable<T>)
        ensures
            r@ == items@,
    {
        let r = NPeekable { items, pos: 0 };
        assert(r@ =~= r.items@);
        r
    }

    /// Returns the item `offset` places ahead (`0` is the next item), without consuming anything.
    pub fn peek(&mut self, offset: usize) -> (r: Option<T>)
        ensures
            *final(self) == *old(self),
            r == if offset < old(self)@.len() { Some(old(self)@[offset as int]) } else { None::<T> },
    {
        proof { use_type_invariant(&*self); }
        if offset < self.items.len() - self.pos {
            Some(self.items[self.pos + offset])
        } else {
            None
        }
    }

    /// Consumes and returns the next item.
    pub fn next(&mut self) -> (r: Option<T>)
        ensures
            old(self)@.len() > 0 ==> r == Some(old(self)@[0]) && final(self)@ == old(self)@.drop_first(),
            old(self)@.len() == 0 ==> r is None && final(self)@ == old(self)@,
    {
        proof { use_type_invariant(&*self); }
        if self.pos < self.items.len() {
            let t = self.items[self.pos];
            self.pos = self.pos + 1;
            assert(self@ =~= old(self)@.drop_first());
            Some(t)
        } else {
            None
        }
    }

    /// Number of items not yet consumed.
    pub fn remaining(&self) -> (r: usize)
        ensures
            r == self@.len(),
    {
        proof { use_type_invariant(self); }
        self.items.len() - self.pos
    }
}

} // verus!
