//! A stream of characters that can be looked at one ahead: the input of the parsers.
use vstd::prelude::*;

verus! {

broadcast use vstd::string::group_string_axioms;

/// Appends one character to a string.
/// Calls `String::push`, which, as its documentation says, appends the character
/// to the end of the string.
#[verifier::external_body]
pub(crate) fn push_char(s: &mut String, c: char)
    ensures
        final(s)@ == old(s)@.push(c),
{
    s.push(c)
}

/// The characters of `s`, in order.
pub(crate) fn chars_of(s: &str) -> (v: Vec<char>)
    ensures
        v@ == s@,
{
    let mut v: Vec<char> = Vec::new();
    let mut it = s.chars();
    loop
        invariant
            v@ + vstd::std_specs::iter::IteratorSpec::remaining(&it) == s@,
            vstd::std_specs::iter::IteratorSpec::obeys_prophetic_iter_laws(&it),
            vstd::std_specs::iter::IteratorSpec::decrease(&it) is Some,
        ensures
            v@ == s@,
        decreases vstd::std_specs::iter::IteratorSpec::decrease(&it)->0,
    {
        match it.next() {
            Some(c) => {
                v.push(c);
            },
            None => {
                break ;
            },
        }
    }
    v
}

/// A sequence of characters read from the front, with one character of look-ahead.
pub struct CharStream {
    chars: Vec<char>,
    pos: usize,
}

impl View for CharStream {
    type V = Seq<char>;

    /// The characters not read yet.
    closed spec fn view(&self) -> Seq<char> {
        self.chars@.skip(self.pos as int)
    }
}

impl CharStream {
    #[verifier::type_invariant]
    closed spec fn wf(self) -> bool {
        self.pos <= self.chars.len()
    }

    /// A stream of the characters of `s`.
    pub fn new(s: &str) -> (r: Self)
        ensures
            r@ == s@,
    {
        let chars = chars_of(s);
        let r = CharStream { chars, pos: 0 };
        assert(r@ =~= s@);
        r
    }

    /// A stream of the characters in `chars`.
    pub fn from_chars(chars: Vec<char>) -> (r: Self)
        ensures
            r@ == chars@,
    {
        let r = CharStream { chars, pos: 0 };
        assert(r@ =~= r.chars@);
        r
    }

    /// The next character, if any, without reading it.
    pub fn peek(&self) -> (r: Option<char>)
        ensures
            r == (if self@.len() > 0 {
                Some(self@[0])
            } else {
                None
            }),
            self@.len() <= usize::MAX,
    {
        proof {
            use_type_invariant(self);
        }
        if self.pos < self.chars.len() {
            Some(self.chars[self.pos])
        } else {
            None
        }
    }

    /// Reads the next character, if any.
    pub fn next(&mut self) -> (r: Option<char>)
        ensures
            old(self)@.len() > 0 ==> r == Some(old(self)@[0]) && final(self)@ == old(self)@.drop_first(),
            old(self)@.len() == 0 ==> r is None && final(self)@ == old(self)@,
    {
        proof {
            use_type_invariant(&*self);
        }
        if self.pos < self.chars.len() {
            let c = self.chars[self.pos];
            self.pos = self.pos + 1;
            assert(self@ =~= old(self)@.drop_first());
            Some(c)
        } else {
            None
        }
    }

    /// Whether every character has been read.
    pub fn is_empty(&self) -> (r: bool)
        ensures
            r == (self@.len() == 0),
    {
        proof {
            use_type_invariant(self);
        }
        self.pos >= self.chars.len()
    }

    /// The characters not read yet, as a string; the stream is left as it is.
    pub fn rest(&self) -> (r: String)
        ensures
            r@ == self@,
    {
        proof {
            use_type_invariant(self);
        }
        let mut r = String::new();
        let mut i: usize = self.pos;
        while i < self.chars.len()
            invariant
                self.pos <= i <= self.chars.len(),
                r@ == self.chars@.subrange(self.pos as int, i as int),
            decreases self.chars.len() - i,
        {
            push_char(&mut r, self.chars[i]);
            i = i + 1;
            assert(r@ =~= self.chars@.subrange(self.pos as int, i as int));
        }
        r
    }
}

} // verus!
