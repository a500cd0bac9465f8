//! A nested arrangement of text pieces and its size, and a small fixed-capacity
//! map for the values such an arrangement refers to.
use crate::text::{chars_of, range_eq_vec};
use vstd::prelude::*;

verus! {

/// The size of an arrangement in cells.
#[derive(Clone, Copy, Debug, PartialEq, Eq, Structural)]
pub struct Size {
    pub width: u16,
    pub height: u16,
}

/// A piece of text: literal text, or the name of a value.
pub enum LayoutElement {
    Str(String),
    Val(String),
}

/// Pieces side by side, stacked, or a single piece.
pub enum LayoutVariant {
    Horizontal(Vec<LayoutVariant>),
    Vertical(Vec<LayoutVariant>),
    Element(LayoutElement),
}

/// Bytes of the UTF-8 encoding of `s`.
pub open spec fn byte_len(s: Seq<char>) -> nat {
    (vstd::utf8::encode_utf8(s).len() as usize) as nat
}

/// The text a piece holds.
pub open spec fn element_text(e: LayoutElement) -> Seq<char> {
    match e {
        LayoutElement::Str(s) => s@,
        LayoutElement::Val(s) => s@,
    }
}

impl LayoutElement {
    /// Width of the piece: the length in bytes of its text.
    pub fn width(&self) -> (w: usize)
        ensures
            w == byte_len(element_text(*self)),
    {
        match self {
            LayoutElement::Str(s) => s.as_str().len(),
            LayoutElement::Val(s) => s.as_str().len(),
        }
    }
}

/// The size of an arrangement: side by side the widths add up and the tallest
/// height counts; stacked the heights add up and the widest width counts; a
/// piece is one row of its width (at most 65535).
pub open spec fn variant_size(v: LayoutVariant) -> (nat, nat)
    decreases v, 0int,
{
    match v {
        LayoutVariant::Horizontal(vs) => fold_size(vs@, 0, 0, 0, true),
        LayoutVariant::Vertical(vs) => fold_size(vs@, 0, 0, 0, false),
        LayoutVariant::Element(e) => (
            if byte_len(element_text(e)) < 65535 {
                byte_len(element_text(e))
            } else {
                65535
            },
            1,
        ),
    }
}

/// Combines the sizes of `vs[k..]` onto `(w, h)`: side by side (`across`) or stacked.
pub open spec fn fold_size(vs: Seq<LayoutVariant>, k: int, w: nat, h: nat, across: bool) -> (nat, nat)
    decreases vs, vs.len() - k,
{
    if k < 0 || k >= vs.len() {
        (w, h)
    } else {
        let s = variant_size(vs[k]);
        if across {
            fold_size(vs, k + 1, w + s.0, if h > s.1 { h } else { s.1 }, across)
        } else {
            fold_size(vs, k + 1, if w > s.0 { w } else { s.0 }, h + s.1, across)
        }
    }
}

proof fn lemma_fold_grows(vs: Seq<LayoutVariant>, k: int, w: nat, h: nat, across: bool)
    requires
        0 <= k <= vs.len(),
    ensures
        w <= fold_size(vs, k, w, h, across).0,
        h <= fold_size(vs, k, w, h, across).1,
        forall|j: int| k <= j < vs.len() ==> variant_size(#[trigger] vs[j]).0 <= fold_size(vs, k, w, h, across).0
            && variant_size(vs[j]).1 <= fold_size(vs, k, w, h, across).1,
    decreases vs.len() - k,
{
    if k < vs.len() {
        let s = variant_size(vs[k]);
        if across {
            lemma_fold_grows(vs, k + 1, w + s.0, if h > s.1 { h } else { s.1 }, across);
        } else {
            lemma_fold_grows(vs, k + 1, if w > s.0 { w } else { s.0 }, (h + s.1) as nat, across);
        }
    }
}

impl LayoutVariant {
    /// The size this arrangement takes.
    pub fn length(&self) -> (s: Size)
        requires
            variant_size(*self).0 <= u16::MAX,
            variant_size(*self).1 <= u16::MAX,
        ensures
            s.width == variant_size(*self).0,
            s.height == variant_size(*self).1,
        decreases self,
    {
        match self {
            LayoutVariant::Element(e) => {
                let w = e.width();
                Size { width: if w < 65535 { w as u16 } else { 65535 }, height: 1 }
            },
            LayoutVariant::Horizontal(vs) | LayoutVariant::Vertical(vs) => {
                let across = match self {
                    LayoutVariant::Horizontal(_) => true,
                    _ => false,
                };
                proof {
                    lemma_fold_grows(vs@, 0, 0, 0, across);
                }
                let mut w: u16 = 0;
                let mut h: u16 = 0;
                let mut i: usize = 0;
                while i < vs.len()
                    invariant
                        i <= vs.len(),
                        *self == (if across { LayoutVariant::Horizontal(*vs) } else { LayoutVariant::Vertical(*vs) }),
                        variant_size(*self) == fold_size(vs@, 0, 0, 0, across),
                        fold_size(vs@, 0, 0, 0, across) == fold_size(vs@, i as int, w as nat, h as nat, across),
                        fold_size(vs@, 0, 0, 0, across).0 <= u16::MAX,
                        fold_size(vs@, 0, 0, 0, across).1 <= u16::MAX,
                    decreases vs.len() - i,
                {
                    proof {
                        lemma_fold_grows(vs@, i as int, w as nat, h as nat, across);
                        let s = variant_size(vs@[i as int]);
                        if across {
                            lemma_fold_grows(vs@, i + 1, (w + s.0) as nat, if h > s.1 { h as nat } else { s.1 }, across);
                        } else {
                            lemma_fold_grows(vs@, i + 1, if w > s.0 { w as nat } else { s.0 }, (h + s.1) as nat, across);
                        }
                    }
                    assert(decreases_to!(*self => vs@[i as int]));
                    let s = vs[i].length();
                    if across {
                        w = w + s.width;
                        h = if h > s.height { h } else { s.height };
                    } else {
                        w = if w > s.width { w } else { s.width };
                        h = h + s.height;
                    }
                    i += 1;
                }
                Size { width: w, height: h }
            },
        }
    }
}

/// Why a value could not be stored.
#[derive(Clone, Copy, Debug, PartialEq, Eq, Structural)]
pub enum StackMapError {
    /// All `N` places are taken.
    Full,
}

/// Up to `N` key/value pairs, kept in the order they were added.
pub struct StackMap<const N: usize> {
    pairs: Vec<(String, String)>,
}

impl<const N: usize> StackMap<N> {
    #[verifier::type_invariant]
    spec fn within_capacity(&self) -> bool {
        self.pairs.len() <= N
    }

    /// The stored pairs, oldest first.
    pub closed spec fn entries(&self) -> Seq<(Seq<char>, Seq<char>)> {
        self.pairs@.map_values(|p: (String, String)| (p.0@, p.1@))
    }

    /// No pairs.
    pub fn new() -> (m: StackMap<N>)
        ensures
            m.entries() == Seq::<(Seq<char>, Seq<char>)>::empty(),
    {
        let m = StackMap { pairs: Vec::new() };
        assert(m.entries() =~= Seq::<(Seq<char>, Seq<char>)>::empty());
        m
    }

    /// The value of the oldest pair whose key is `key`.
    pub fn get(&self, key: &str) -> (r: Option<&String>)
        ensures
            match r {
                Some(v) => exists|i: int| 0 <= i < self.entries().len() && self.entries()[i].0 == key@
                    && v@ == self.entries()[i].1 && forall|j: int| 0 <= j < i ==> self.entries()[j].0 != key@,
                None => forall|i: int| 0 <= i < self.entries().len() ==> self.entries()[i].0 != key@,
            },
    {
        let k = chars_of(key);
        assert(k@.subrange(0, k.len() as int) =~= k@);
        let mut i: usize = 0;
        while i < self.pairs.len()
            invariant
                i <= self.pairs.len(),
                k@ == key@,
                k@.subrange(0, k.len() as int) == key@,
                forall|j: int| 0 <= j < i ==> self.entries()[j].0 != key@,
            decreases self.pairs.len() - i,
        {
            let stored = chars_of(self.pairs[i].0.as_str());
            assert(self.entries()[i as int].0 == self.pairs@[i as int].0@);
            if range_eq_vec(&k, 0, k.len(), &stored) {
                return Some(&self.pairs[i].1);
            }
            i += 1;
        }
        None
    }

    /// Adds a pair after the others and gives its place; fails when `N` pairs are stored.
    pub fn insert(&mut self, key: String, val: String) -> (r: Result<usize, StackMapError>)
        ensures
            old(self).entries().len() <= N,
            r is Err <==> old(self).entries().len() == N,
            match r {
                Ok(i) => i == old(self).entries().len() && final(self).entries() == old(self).entries().push((key@, val@)),
                Err(_) => old(self).entries().len() == N && final(self).entries() == old(self).entries(),
            },
    {
        proof {
            use_type_invariant(&*self);
        }
        let n = self.pairs.len();
        if n == N {
            return Err(StackMapError::Full);
        }
        let mut pairs: Vec<(String, String)> = Vec::new();
        std::mem::swap(&mut pairs, &mut self.pairs);
        let ghost before = pairs@.map_values(|p: (String, String)| (p.0@, p.1@));
        pairs.push((key, val));
        self.pairs = pairs;
        assert(self.entries() =~= before.push((key@, val@)));
        Ok(n)
    }
}

/// A key added to a map that did not hold it is found again with its value.
pub proof fn law_stack_map_finds_inserted(entries: Seq<(Seq<char>, Seq<char>)>, key: Seq<char>, val: Seq<char>)
    requires
        forall|i: int| 0 <= i < entries.len() ==> entries[i].0 != key,
    ensures
        ({
            let after = entries.push((key, val));
            &&& after[entries.len() as int].0 == key
            &&& after[entries.len() as int].1 == val
            &&& forall|j: int| 0 <= j < entries.len() ==> after[j].0 != key
        }),
{
}

/// An arrangement of pieces and the values its `Val` pieces name.
pub struct LayoutWidget {
    pub layout: LayoutVariant,
    pub variable_map: StackMap<6>,
}

} // verus!
