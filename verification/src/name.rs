//! Normalized package names.
//!
//! A tool is identified by a normalized name: ASCII, lower case, with every
//! run of the separators `-`, `_` and `.` folded to a single `-`, so that all
//! spellings of one name denote one tool. A raw name is accepted only when
//! its normal form is nonempty, uses the permitted characters, and neither
//! starts nor ends with a separator.

use vstd::prelude::*;

verus! {

/// ASCII code points used by name normalization.
pub const DASH: u8 = 45;
pub const DOT: u8 = 46;
pub const DIGIT_ZERO: u8 = 48;
pub const DIGIT_NINE: u8 = 57;
pub const UPPER_A: u8 = 65;
pub const UPPER_Z: u8 = 90;
pub const UNDERSCORE: u8 = 95;
pub const LOWER_A: u8 = 97;
pub const LOWER_Z: u8 = 122;

/// Characters permitted in a normalized name.
pub open spec fn is_name_byte(b: u8) -> bool {
    (LOWER_A <= b <= LOWER_Z) || (DIGIT_ZERO <= b <= DIGIT_NINE) || b == DASH
}

/// Normal form of one character: lower case, separators folded to `-`.
pub open spec fn normal_byte(b: u8) -> u8 {
    if UPPER_A <= b <= UPPER_Z {
        (b + 32) as u8
    } else if b == UNDERSCORE || b == DOT {
        DASH
    } else {
        b
    }
}

/// Every character folded to its normal form, runs not yet collapsed.
pub open spec fn folded_form(s: Seq<u8>) -> Seq<u8> {
    Seq::new(s.len(), |i: int| normal_byte(s[i]))
}

/// Each run of consecutive dashes collapsed to a single dash.
pub open spec fn collapse_dashes(s: Seq<u8>) -> Seq<u8>
    decreases s.len(),
{
    if s.len() == 0 {
        s
    } else if s.len() >= 2 && s[0] == DASH && s[1] == DASH {
        collapse_dashes(s.drop_first())
    } else {
        seq![s[0]] + collapse_dashes(s.drop_first())
    }
}

/// Normal form of a raw name: characters folded, separator runs collapsed.
pub open spec fn normal_form(s: Seq<u8>) -> Seq<u8> {
    collapse_dashes(folded_form(s))
}

/// A normalized name is nonempty, uses only permitted characters, and
/// neither starts nor ends with `-`.
pub open spec fn is_valid_name(s: Seq<u8>) -> bool {
    &&& s.len() > 0
    &&& forall|i: int| 0 <= i < s.len() ==> is_name_byte(#[trigger] s[i])
    &&& s[0] != DASH
    &&& s[s.len() - 1] != DASH
}

/// What parsing a raw name yields: its normal form, when that form is valid.
pub open spec fn parse_name_spec(raw: Seq<u8>) -> Option<Seq<u8>> {
    if is_valid_name(normal_form(raw)) {
        Some(normal_form(raw))
    } else {
        None
    }
}

/// A normalized, unique tool identifier.
pub struct PackageName {
    pub bytes: Vec<u8>,
}

impl DeepView for PackageName {
    type V = Seq<u8>;

    open spec fn deep_view(&self) -> Seq<u8> {
        self.bytes@
    }
}

impl PackageName {
    /// The name is in normal form.
    pub open spec fn wf(&self) -> bool {
        is_valid_name(self.bytes@)
    }

    /// Parse a raw name: normalize it and accept only a valid normal form.
    pub fn parse(raw: &Vec<u8>) -> (r: Option<PackageName>)
        ensures
            match r {
                Some(n) => parse_name_spec(raw@) == Some(n.bytes@) && n.wf(),
                None => parse_name_spec(raw@) is None,
            },
    {
        let n = raw.len();
        let ghost folded = folded_form(raw@);
        let mut out: Vec<u8> = Vec::new();
        let mut i: usize = 0;
        proof {
            assert(folded.skip(0) =~= folded);
        }
        while i < n
            invariant
                n == raw.len(),
                i <= n,
                folded == folded_form(raw@),
                collapse_dashes(folded) == out@ + collapse_dashes(folded.skip(i as int)),
            decreases n - i,
        {
            let b = raw[i];
            let c: u8 = if b >= UPPER_A && b <= UPPER_Z {
                b + 32
            } else if b == UNDERSCORE || b == DOT {
                DASH
            } else {
                b
            };
            assert(c == normal_byte(raw@[i as int]));
            assert(folded.skip(i as int)[0] == c);
            assert(folded.skip(i as int).drop_first() =~= folded.skip(i as int + 1));
            // a separator directly followed by another is dropped: the run
            // collapses to the single dash kept at its end
            let run_continues = c == DASH && i + 1 < n && {
                let d = raw[i + 1];
                d == DASH || d == UNDERSCORE || d == DOT
            };
            if run_continues {
                assert(folded.skip(i as int)[1] == DASH);
            } else {
                let ghost prev = out@;
                out.push(c);
                proof {
                    if i as int + 1 < n {
                        assert(folded.skip(i as int)[1] == normal_byte(raw@[i as int + 1]));
                        assert(folded.skip(i as int)[1] != DASH || c != DASH);
                    }
                    assert(collapse_dashes(folded.skip(i as int)) == seq![c] + collapse_dashes(
                        folded.skip(i as int + 1),
                    ));
                    assert(prev + (seq![c] + collapse_dashes(folded.skip(i as int + 1))) =~= out@
                        + collapse_dashes(folded.skip(i as int + 1)));
                }
            }
            i += 1;
        }
        proof {
            assert(folded.skip(n as int) =~= Seq::<u8>::empty());
            assert(out@ + Seq::<u8>::empty() =~= out@);
        }
        assert(out@ == normal_form(raw@));
        let m = out.len();
        if m == 0 {
            return None;
        }
        if out[0] == DASH || out[m - 1] == DASH {
            return None;
        }
        let mut j: usize = 0;
        while j < m
            invariant
                m == out.len(),
                j <= m,
                out@ == normal_form(raw@),
                forall|k: int| 0 <= k < j ==> is_name_byte(#[trigger] out@[k]),
            decreases m - j,
        {
            let b = out[j];
            let ok = (b >= LOWER_A && b <= LOWER_Z) || (b >= DIGIT_ZERO && b <= DIGIT_NINE) || b == DASH;
            if !ok {
                assert(!is_name_byte(out@[j as int]));
                return None;
            }
            j += 1;
        }
        Some(PackageName { bytes: out })
    }

    /// Structural equality of two names.
    pub fn same(&self, other: &PackageName) -> (r: bool)
        ensures
            r == (self.deep_view() == other.deep_view()),
    {
        crate::bytes::bytes_eq(&self.bytes, &other.bytes)
    }
}

} // verus!
