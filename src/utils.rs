//! Fitting text into a fixed width.
use vstd::prelude::*;
use crate::text::substring;

verus! {

/// `s` if it fits in `width` characters, else its first `width - 3`
/// characters followed by `...`.
pub open spec fn truncated(s: Seq<char>, width: nat) -> Seq<char> {
    if s.len() <= width {
        s
    } else {
        s.subrange(0, width - 3) + "..."@
    }
}

/// `n` dots.
pub open spec fn dots(n: nat) -> Seq<char> {
    Seq::new(n, |i: int| '.')
}

/// `s` followed by dots up to `width` characters.
pub open spec fn padded(s: Seq<char>, width: nat) -> Seq<char> {
    if s.len() >= width {
        s
    } else {
        s + dots((width - s.len()) as nat)
    }
}

/// Fills `s` with dots up to `width` characters.
pub fn pad_with_dots(s: String, width: usize) -> (r: String)
    ensures
        r@ == padded(s@, width as nat),
{
    let n = s.as_str().unicode_len();
    if n >= width {
        return s;
    }
    let mut r = s;
    let mut i: usize = n;
    while i < width
        invariant
            n <= i <= width,
            n == s@.len(),
            r@ == s@ + dots((i - n) as nat),
        decreases width - i,
    {
        let ghost before = r@;
        r.append(".");
        proof {
            reveal_strlit(".");
        }
        assert(r@ =~= before.push('.'));
        i = i + 1;
        assert(r@ =~= s@ + dots((i - n) as nat));
    }
    r
}

/// Text that can be cut down to a width, marking the cut with `...`.
pub trait TruncatableToFit: Sized {
    spec fn fit_text(&self) -> Seq<char>;

    fn truncate_to_fit(self, width: usize) -> (r: String)
        requires
            self.fit_text().len() > width ==> width >= 3,
        ensures
            r@ == truncated(self.fit_text(), width as nat),
    ;
}

fn truncate_str(s: &str, width: usize) -> (r: String)
    requires
        s@.len() > width ==> width >= 3,
    ensures
        r@ == truncated(s@, width as nat),
{
    if s.unicode_len() <= width {
        return s.to_owned();
    }
    let mut r = substring(s, 0, width - 3);
    r.append("...");
    r
}

impl TruncatableToFit for String {
    open spec fn fit_text(&self) -> Seq<char> {
        self@
    }

    fn truncate_to_fit(self, width: usize) -> (r: String) {
        truncate_str(self.as_str(), width)
    }
}

impl<'a> TruncatableToFit for &'a str {
    open spec fn fit_text(&self) -> Seq<char> {
        self@
    }

    fn truncate_to_fit(self, width: usize) -> (r: String) {
        truncate_str(self, width)
    }
}

} // verus!
