//! UTF-8 well-formedness of a byte sequence, checked before any text
//! operation so that malformed transport bytes are told apart from
//! well-formed but unrecognized text.

use vstd::prelude::*;

verus! {

pub open spec fn is_continuation(b: u8) -> bool {
    128 <= b <= 191
}

/// Length of the well-formed UTF-8 scalar encoding at the head of `s`,
/// or 0 if the head is malformed.
pub open spec fn utf8_step(s: Seq<u8>) -> int {
    if s.len() >= 1 && s[0] < 128 {
        1
    } else if s.len() >= 2 && 194 <= s[0] <= 223 && is_continuation(s[1]) {
        2
    } else if s.len() >= 3 && s[0] == 224 && 160 <= s[1] <= 191 && is_continuation(s[2]) {
        3
    } else if s.len() >= 3 && (225 <= s[0] <= 236 || s[0] == 238 || s[0] == 239)
            && is_continuation(s[1]) && is_continuation(s[2]) {
        3
    } else if s.len() >= 3 && s[0] == 237 && 128 <= s[1] <= 159 && is_continuation(s[2]) {
        3
    } else if s.len() >= 4 && s[0] == 240 && 144 <= s[1] <= 191
            && is_continuation(s[2]) && is_continuation(s[3]) {
        4
    } else if s.len() >= 4 && 241 <= s[0] <= 243
            && is_continuation(s[1]) && is_continuation(s[2]) && is_continuation(s[3]) {
        4
    } else if s.len() >= 4 && s[0] == 244 && 128 <= s[1] <= 143
            && is_continuation(s[2]) && is_continuation(s[3]) {
        4
    } else {
        0
    }
}

/// A byte sequence is valid UTF-8 when it splits into well-formed scalar
/// encodings from left to right.
pub open spec fn is_valid_utf8(s: Seq<u8>) -> bool
    decreases s.len(),
{
    if s.len() == 0 {
        true
    } else {
        utf8_step(s) > 0 && is_valid_utf8(s.skip(utf8_step(s)))
    }
}

/// A sequence of ASCII bytes is valid UTF-8.
pub proof fn lemma_ascii_is_valid_utf8(s: Seq<u8>)
    requires forall|i: int| 0 <= i < s.len() ==> #[trigger] s[i] < 128,
    ensures is_valid_utf8(s),
    decreases s.len(),
{
    if s.len() > 0 {
        assert(utf8_step(s) == 1);
        assert(forall|i: int| 0 <= i < s.skip(1).len() ==> #[trigger] s.skip(1)[i] < 128);
        lemma_ascii_is_valid_utf8(s.skip(1));
    }
}

/// Check that `s` is valid UTF-8.
pub fn validate_utf8(s: &[u8]) -> (r: bool)
    ensures r == is_valid_utf8(s@),
{
    let n = s.len();
    let mut i: usize = 0;
    proof {
        assert(s@.skip(0) =~= s@);
    }
    while i < n
        invariant
            i <= n == s@.len(),
            is_valid_utf8(s@) == is_valid_utf8(s@.skip(i as int)),
        decreases n - i,
    {
        let ghost t = s@.skip(i as int);
        let b0 = s[i];
        let rem = n - i;
        proof {
            assert(t.len() == rem);
            assert(t[0] == s@[i as int]);
        }
        let step: usize;
        if b0 < 128 {
            step = 1;
            proof { assert(utf8_step(t) == 1); }
        } else if rem >= 2 && 194 <= b0 && b0 <= 223 && 128 <= s[i + 1] && s[i + 1] <= 191 {
            step = 2;
            proof {
                assert(t[1] == s@[i as int + 1]);
                assert(utf8_step(t) == 2);
            }
        } else if rem >= 3 && b0 == 224 && 160 <= s[i + 1] && s[i + 1] <= 191
                && 128 <= s[i + 2] && s[i + 2] <= 191 {
            step = 3;
            proof {
                assert(t[1] == s@[i as int + 1]);
                assert(t[2] == s@[i as int + 2]);
                assert(utf8_step(t) == 3);
            }
        } else if rem >= 3 && (225 <= b0 && b0 <= 236 || b0 == 238 || b0 == 239)
                && 128 <= s[i + 1] && s[i + 1] <= 191
                && 128 <= s[i + 2] && s[i + 2] <= 191 {
            step = 3;
            proof {
                assert(t[1] == s@[i as int + 1]);
                assert(t[2] == s@[i as int + 2]);
                assert(utf8_step(t) == 3);
            }
        } else if rem >= 3 && b0 == 237 && 128 <= s[i + 1] && s[i + 1] <= 159
                && 128 <= s[i + 2] && s[i + 2] <= 191 {
            step = 3;
            proof {
                assert(t[1] == s@[i as int + 1]);
                assert(t[2] == s@[i as int + 2]);
                assert(utf8_step(t) == 3);
            }
        } else if rem >= 4 && b0 == 240 && 144 <= s[i + 1] && s[i + 1] <= 191
                && 128 <= s[i + 2] && s[i + 2] <= 191
                && 128 <= s[i + 3] && s[i + 3] <= 191 {
            step = 4;
            proof {
                assert(t[1] == s@[i as int + 1]);
                assert(t[2] == s@[i as int + 2]);
                assert(t[3] == s@[i as int + 3]);
                assert(utf8_step(t) == 4);
            }
        } else if rem >= 4 && 241 <= b0 && b0 <= 243
                && 128 <= s[i + 1] && s[i + 1] <= 191
                && 128 <= s[i + 2] && s[i + 2] <= 191
                && 128 <= s[i + 3] && s[i + 3] <= 191 {
            step = 4;
            proof {
                assert(t[1] == s@[i as int + 1]);
                assert(t[2] == s@[i as int + 2]);
                assert(t[3] == s@[i as int + 3]);
                assert(utf8_step(t) == 4);
            }
        } else if rem >= 4 && b0 == 244 && 128 <= s[i + 1] && s[i + 1] <= 143
                && 128 <= s[i + 2] && s[i + 2] <= 191
                && 128 <= s[i + 3] && s[i + 3] <= 191 {
            step = 4;
            proof {
                assert(t[1] == s@[i as int + 1]);
                assert(t[2] == s@[i as int + 2]);
                assert(t[3] == s@[i as int + 3]);
                assert(utf8_step(t) == 4);
            }
        } else {
            proof {
                if t.len() >= 2 { assert(t[1] == s@[i as int + 1]); }
                if t.len() >= 3 { assert(t[2] == s@[i as int + 2]); }
                if t.len() >= 4 { assert(t[3] == s@[i as int + 3]); }
                assert(utf8_step(t) == 0);
            }
            return false;
        }
        proof {
            assert(t.skip(step as int) =~= s@.skip(i as int + step as int));
        }
        i = i + step;
    }
    proof {
        assert(s@.skip(i as int) =~= Seq::<u8>::empty());
    }
    true
}

} // verus!
