//! Width and height in pixels, written as `1920x1080`.

use vstd::prelude::*;
use crate::error::DecodeError;
use crate::number::{
    is_digit, lemma_nat_digits_are_digits, lemma_parse_unsigned_of_digits, nat_digits,
    parse_unsigned, push_unsigned, spec_parse_unsigned,
};
use crate::text::{chars_of, find_char, index_of_from, lemma_index_of_from_is};

verus! {

/// A resolution in whole pixels. Every pair of numbers is one, zero included.
#[derive(Debug, Clone, Copy, PartialEq, Eq, Structural, Hash)]
pub struct DecimalResolution {
    pub width: usize,
    pub height: usize,
}

impl DecimalResolution {
    /// The text of a resolution: width, `x`, height, each in its shortest
    /// decimal writing.
    pub open spec fn spec_text(self) -> Seq<char> {
        nat_digits(self.width as nat) + seq!['x'] + nat_digits(self.height as nat)
    }

    /// What `s` denotes as a resolution: the text before its first `x` and the
    /// text after it must each be an unsigned integer that fits in `usize`.
    /// A text without `x`, or with a second one, denotes none.
    pub open spec fn spec_parse(s: Seq<char>) -> Option<DecimalResolution> {
        let x = index_of_from(s, 'x', 0);
        if x >= s.len() {
            None
        } else {
            match (spec_parse_unsigned(s.take(x)), spec_parse_unsigned(s.skip(x + 1))) {
                (Some(w), Some(h)) => if w <= usize::MAX && h <= usize::MAX {
                    Some(DecimalResolution { width: w as usize, height: h as usize })
                } else {
                    None
                },
                _ => None,
            }
        }
    }

    /// Reading the text of a resolution gives the resolution back.
    pub proof fn lemma_parse_text(self)
        ensures
            Self::spec_parse(self.spec_text()) == Some(self),
    {
        let w = nat_digits(self.width as nat);
        let h = nat_digits(self.height as nat);
        let s = self.spec_text();
        lemma_nat_digits_are_digits(self.width as nat);
        lemma_nat_digits_are_digits(self.height as nat);
        assert forall|j: int| 0 <= j < w.len() implies s[j] != 'x' by {
            assert(is_digit(w[j]));
        }
        lemma_index_of_from_is(s, 'x', 0, w.len() as int);
        assert(s.take(w.len() as int) =~= w);
        assert(s.skip(w.len() as int + 1) =~= h);
        lemma_parse_unsigned_of_digits(self.width as u64);
        lemma_parse_unsigned_of_digits(self.height as u64);
    }

    /// Creates a new resolution.
    pub fn new(width: usize, height: usize) -> (r: Self)
        ensures
            r == (DecimalResolution { width, height }),
    {
        DecimalResolution { width, height }
    }

    /// Horizontal pixel dimension.
    pub fn width(&self) -> (w: usize)
        ensures
            w == self.width,
    {
        self.width
    }

    /// Sets the horizontal pixel dimension.
    pub fn set_width(&mut self, value: usize) -> (ret: &mut Self)
        ensures
            *ret == (DecimalResolution { width: value, height: old(self).height }),
            *final(self) == *final(ret),
    {
        self.width = value;
        self
    }

    /// Vertical pixel dimension.
    pub fn height(&self) -> (h: usize)
        ensures
            h == self.height,
    {
        self.height
    }

    /// Sets the vertical pixel dimension.
    pub fn set_height(&mut self, value: usize) -> (ret: &mut Self)
        ensures
            *ret == (DecimalResolution { width: old(self).width, height: value }),
            *final(self) == *final(ret),
    {
        self.height = value;
        self
    }

    /// Appends the text of the resolution to `out`.
    pub fn write(&self, out: &mut String)
        ensures
            final(out)@ == old(out)@ + self.spec_text(),
    {
        push_unsigned(out, self.width as u64);
        out.push('x');
        push_unsigned(out, self.height as u64);
        assert(final(out)@ =~= old(out)@ + self.spec_text());
    }

    /// The text of the resolution, such as `1920x1080`.
    pub fn to_string(&self) -> (s: String)
        ensures
            s@ == self.spec_text(),
    {
        let mut s = String::new();
        self.write(&mut s);
        assert(s@ =~= self.spec_text());
        s
    }

    /// Reads a resolution from `[width]x[height]`.
    pub fn parse(input: &str) -> (r: Result<Self, DecodeError>)
        ensures
            r matches Ok(v) ==> Self::spec_parse(input@) == Some(v),
            r matches Err(e) ==> Self::spec_parse(input@) is None && e
                == DecodeError::InvalidResolution,
    {
        let chars = chars_of(input);
        let n = chars.len();
        let x = find_char(&chars, 'x', 0, n);
        assert(chars@.subrange(0, n as int) =~= input@);
        if x >= n {
            return Err(DecodeError::InvalidResolution);
        }
        assert(chars@.subrange(0, x as int) =~= input@.take(x as int));
        assert(chars@.subrange(x + 1, n as int) =~= input@.skip(x + 1));
        let w = parse_unsigned(&chars, 0, x);
        let h = parse_unsigned(&chars, x + 1, n);
        match (w, h) {
            (Some(w), Some(h)) => {
                if w <= usize::MAX as u64 && h <= usize::MAX as u64 {
                    Ok(DecimalResolution { width: w as usize, height: h as usize })
                } else {
                    Err(DecodeError::InvalidResolution)
                }
            },
            _ => Err(DecodeError::InvalidResolution),
        }
    }
}

} // verus!
