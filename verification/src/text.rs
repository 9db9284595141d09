//! String-length helpers over anything string-like, and a small greeting
//! trait — the same measuring function under several generic signatures
//! (implicit bound, inline bound, `where` clause, and trait object), all
//! with one contract: the result is the length in bytes of the text's
//! UTF-8 encoding, the count `str::len` gives.

use vstd::prelude::*;

verus! {

use vstd::utf8::encode_utf8;

/// A type that exposes its text; `chars` is its abstraction as a
/// sequence of characters.
pub trait AsText {
    spec fn chars(&self) -> Seq<char>;

    fn text(&self) -> (r: &str)
        ensures
            r@ == self.chars(),
    ;
}

impl AsText for String {
    open spec fn chars(&self) -> Seq<char> {
        self@
    }

    fn text(&self) -> (r: &str) {
        self.as_str()
    }
}

impl AsText for &str {
    open spec fn chars(&self) -> Seq<char> {
        self@
    }

    fn text(&self) -> (r: &str) {
        *self
    }
}

/// Byte length, generic by `impl` bound.
pub fn strlen(s: impl AsText) -> (n: usize)
    ensures
        n == encode_utf8(s.chars()).len() as usize,
{
    s.text().len()
}

/// Byte length, generic by inline type-parameter bound.
pub fn strlenb<S: AsText>(s: S) -> (n: usize)
    ensures
        n == encode_utf8(s.chars()).len() as usize,
{
    s.text().len()
}

/// Byte length, generic by `where` clause.
pub fn strlen2<S>(s: S) -> (n: usize) where S: AsText
    ensures
        n == encode_utf8(s.chars()).len() as usize,
{
    s.text().len()
}

/// Byte length of a string slice.
pub fn strlen_refstr(s: &str) -> (n: usize)
    ensures
        n == encode_utf8(s@).len() as usize,
{
    s.len()
}

/// Byte length of an owned string.
pub fn strlen_string(s: String) -> (n: usize)
    ensures
        n == encode_utf8(s@).len() as usize,
{
    s.as_str().len()
}

/// Byte length through an owned trait object.
pub fn strlen_dyn(s: Box<dyn AsText>) -> (n: usize)
    ensures
        n == encode_utf8(s.chars()).len() as usize,
{
    s.text().len()
}

/// Byte length through a borrowed trait object.
pub fn strlen_dyn2(s: &dyn AsText) -> (n: usize)
    ensures
        n == encode_utf8(s.chars()).len() as usize,
{
    s.text().len()
}

/// A type that can greet: the greeting is the word `hei`, a space, and
/// the characters of the value itself.
pub trait Hei {
    spec fn chars(&self) -> Seq<char>;

    fn hei(&self) -> (r: String)
        ensures
            r@ == "hei "@ + self.chars(),
    ;
}

impl Hei for String {
    open spec fn chars(&self) -> Seq<char> {
        self@
    }

    fn hei(&self) -> (r: String) {
        let mut r = String::from_str("hei ");
        r.append(self.as_str());
        r
    }
}

impl Hei for &str {
    open spec fn chars(&self) -> Seq<char> {
        self@
    }

    fn hei(&self) -> (r: String) {
        let mut r = String::from_str("hei ");
        r.append(*self);
        r
    }
}

/// The greeting of one value, through a trait object.
pub fn say_hei(s: &dyn Hei) -> (r: String)
    ensures
        r@ == "hei "@ + s.chars(),
{
    s.hei()
}

/// The greetings of each value in turn.  (A collection of mixed
/// trait-object elements cannot be related element by element to its
/// specification here; the trait-object form stands in `say_hei`.)
pub fn bar(s: &Vec<String>) -> (r: Vec<String>)
    ensures
        r@.len() == s@.len(),
        forall|i: int| 0 <= i < s@.len() ==> r@[i]@ == "hei "@ + (#[trigger] s@[i])@,
{
    let mut r: Vec<String> = Vec::new();
    let mut i: usize = 0;
    while i < s.len()
        invariant
            i <= s@.len(),
            r@.len() == i,
            forall|k: int| 0 <= k < i ==> r@[k]@ == "hei "@ + (#[trigger] s@[k])@,
        decreases s@.len() - i,
    {
        let greeting = s[i].hei();
        r.push(greeting);
        i = i + 1;
    }
    r
}

/// A small tour of the helpers above on concrete values, checking
/// statically that every signature measures the same text the same way.
pub fn foo() {
    let a = strlen("hello world");
    let b = strlen_refstr("hello world");
    assert(a == b);
    let c = strlen_dyn2(&"hello world");
    assert(c == a);
    let d = strlen_string(String::from_str("hei verden"));
    let e = strlenb("hei verden");
    assert(d == e);
}

} // verus!
