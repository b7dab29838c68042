//! Small shared helpers.

use vstd::prelude::*;

verus! {

/// `s` cut to at most `max_length` characters: a short text is kept whole,
/// a longer one is cut to `max_length - 3` characters with `...` appended.
pub open spec fn trunc_spec(s: Seq<char>, max_length: int) -> Seq<char> {
    if s.len() <= max_length {
        s
    } else {
        s.subrange(0, max_length - 3) + "..."@
    }
}

/// Text that can be cut to a maximum width, with trailing dots marking the
/// cut.
pub trait TruncWithDots {
    /// The characters of the text.
    spec fn text_view(&self) -> Seq<char>;

    /// The text cut to at most `max_length` characters.
    fn trunc_with_dots(&self, max_length: usize) -> (r: String)
        requires
            max_length >= 3,
        ensures
            r@ == trunc_spec(self.text_view(), max_length as int),
    ;
}

impl TruncWithDots for String {
    open spec fn text_view(&self) -> Seq<char> {
        self@
    }

    fn trunc_with_dots(&self, max_length: usize) -> (r: String)
    {
        let n = self.as_str().unicode_len();
        if n <= max_length {
            self.clone()
        } else {
            let mut out = String::from_str(self.as_str().substring_char(0, max_length - 3));
            proof {
                reveal_strlit("...");
            }
            out.append("...");
            out
        }
    }
}

} // verus!
