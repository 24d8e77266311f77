//! The mutable state of one formatting run, and the spacing state machine.
//!
//! The state is an output buffer, a flag set right after a strand closes,
//! and the binding oracle.  Immediately before a token is appended, one of
//! the `space_if_*` rules decides whether a separating space is needed, so
//! that no two adjacent tokens can merge when the output is re-parsed.

use vstd::prelude::*;
use vstd::string::StrSliceExecFns;

use crate::chars::{alphabetic, alphanumeric, char_is_alphabetic, char_is_alphanumeric};
use crate::oracle::Oracle;

verus! {

/// The model of the text-building part of the state: the characters
/// emitted so far and the was-strand flag.
#[verifier::ext_equal]
pub struct RState {
    pub text: Seq<char>,
    pub strand: bool,
}

/// Appending a token's text: the buffer grows and the was-strand flag is
/// cleared, whatever rule ran before.
pub open spec fn spec_push(st: RState, t: Seq<char>) -> RState {
    RState { text: st.text + t, strand: false }
}

/// The strand rule: one space right after a closed strand, at most once.
pub open spec fn spec_after_strand(st: RState) -> RState {
    if st.strand {
        RState { text: st.text.push(' '), strand: false }
    } else {
        st
    }
}

/// The alphanumeric rule: after the strand rule, a space if the last
/// character of the buffer is alphanumeric.
pub open spec fn spec_pad_alphanumeric(st: RState) -> RState {
    let s1 = spec_after_strand(st);
    if s1.text.len() > 0 && alphanumeric(s1.text.last()) {
        spec_push(s1, seq![' '])
    } else {
        s1
    }
}

/// The alphabetic rule: after the strand rule, a space if the last
/// character of the buffer is alphabetic.
pub open spec fn spec_pad_alphabetic(st: RState) -> RState {
    let s1 = spec_after_strand(st);
    if s1.text.len() > 0 && alphabetic(s1.text.last()) {
        spec_push(s1, seq![' '])
    } else {
        s1
    }
}

/// The state threaded through one formatting run.
pub struct FormatState {
    /// The output buffer.
    pub buf: Vec<char>,
    /// True right after a strand was rendered, until the next append.
    pub was_strand: bool,
    /// The binding oracle for this run.
    pub oracle: Oracle,
}

impl FormatState {
    /// The text-building part of the model.
    pub open spec fn rst(self) -> RState {
        RState { text: self.buf@, strand: self.was_strand }
    }

    /// Appends one character; clears the was-strand flag.
    pub fn push_char(&mut self, c: char)
        ensures
            final(self).rst() == spec_push(old(self).rst(), seq![c]),
            final(self).oracle == old(self).oracle,
    {
        self.was_strand = false;
        self.buf.push(c);
        proof {
            assert(self.rst() =~= spec_push(old(self).rst(), seq![c]));
        }
    }

    /// Appends the characters of a vector; clears the was-strand flag.
    pub fn push_chars(&mut self, t: &Vec<char>)
        ensures
            final(self).rst() == spec_push(old(self).rst(), t@),
            final(self).oracle == old(self).oracle,
    {
        self.was_strand = false;
        let n = t.len();
        let mut i: usize = 0;
        while i < n
            invariant
                i <= n,
                n == t@.len(),
                self.buf@ == old(self).buf@ + t@.take(i as int),
                self.was_strand == false,
                self.oracle == old(self).oracle,
            decreases n - i,
        {
            self.buf.push(t[i]);
            i = i + 1;
            proof {
                assert(self.buf@ =~= old(self).buf@ + t@.take(i as int));
            }
        }
        proof {
            assert(self.rst() =~= spec_push(old(self).rst(), t@));
        }
    }

    /// Appends the characters of a string slice; clears the was-strand flag.
    pub fn push(&mut self, t: &str)
        ensures
            final(self).rst() == spec_push(old(self).rst(), t@),
            final(self).oracle == old(self).oracle,
    {
        self.was_strand = false;
        let n = t.unicode_len();
        let mut i: usize = 0;
        while i < n
            invariant
                i <= n,
                n == t@.len(),
                self.buf@ == old(self).buf@ + t@.take(i as int),
                self.was_strand == false,
                self.oracle == old(self).oracle,
            decreases n - i,
        {
            self.buf.push(t.get_char(i));
            i = i + 1;
            proof {
                assert(self.buf@ =~= old(self).buf@ + t@.take(i as int));
            }
        }
        proof {
            assert(self.rst() =~= spec_push(old(self).rst(), t@));
        }
    }

    /// The strand rule: appends one space if the was-strand flag is set.
    pub fn space_if_was_strand(&mut self)
        ensures
            final(self).rst() == spec_after_strand(old(self).rst()),
            final(self).oracle == old(self).oracle,
    {
        if self.was_strand {
            self.push_char(' ');
            proof {
                assert(self.rst() =~= spec_after_strand(old(self).rst()));
            }
        }
    }

    /// The alphanumeric rule: runs the strand rule, and appends one space
    /// if the buffer then ends in an alphanumeric character.
    pub fn space_if_alphanumeric(&mut self)
        ensures
            final(self).rst() == spec_pad_alphanumeric(old(self).rst()),
            final(self).oracle == old(self).oracle,
    {
        self.space_if_was_strand();
        if self.buf.len() > 0 {
            let c = self.buf[self.buf.len() - 1];
            if char_is_alphanumeric(c) {
                self.push_char(' ');
            }
        }
        proof {
            assert(self.rst() =~= spec_pad_alphanumeric(old(self).rst()));
        }
    }

    /// The alphabetic rule: runs the strand rule, and appends one space
    /// if the buffer then ends in an alphabetic character.
    pub fn space_if_alphabetic(&mut self)
        ensures
            final(self).rst() == spec_pad_alphabetic(old(self).rst()),
            final(self).oracle == old(self).oracle,
    {
        self.space_if_was_strand();
        if self.buf.len() > 0 {
            let c = self.buf[self.buf.len() - 1];
            if char_is_alphabetic(c) {
                self.push_char(' ');
            }
        }
        proof {
            assert(self.rst() =~= spec_pad_alphabetic(old(self).rst()));
        }
    }
}

} // verus!
