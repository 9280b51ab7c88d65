//! User-editable coordinates for synthetic pointer events.
//!
//! The inspector lets the user type the local point at which a pointer
//! event is injected.  The text is kept as entered; it is accepted
//! exactly when the host's floating-point parsing accepts it — an
//! optional sign, then a mantissa with an optional exponent, or one of
//! the words `inf`, `infinity` and `nan` in any letter case — and
//! otherwise the previous valid value stays: malformed input never
//! propagates.  The conversion to the host's numeric type happens on the
//! host's side; this module only fixes which texts are numbers.

use vstd::prelude::*;

use crate::DevtoolsError;

verus! {

/// Whether `c` is a decimal digit.
pub open spec fn is_digit(c: char) -> bool {
    48 <= c as u32 <= 57
}

/// Whether `c` is this letter, in lower or upper case.
pub open spec fn letter(c: char, lower: char, upper: char) -> bool {
    c == lower || c == upper
}

/// Length of the optional leading sign.
pub open spec fn sign_len(s: Seq<char>) -> int {
    if s.len() > 0 && (s[0] == '+' || s[0] == '-') {
        1
    } else {
        0
    }
}

/// `s[from..to)` is a mantissa: only digits and at most one `.`, with at
/// least one digit.
pub open spec fn mantissa_ok(s: Seq<char>, from: int, to: int) -> bool {
    &&& forall|i: int| from <= i < to ==> is_digit(#[trigger] s[i]) || s[i] == '.'
    &&& exists|i: int| from <= i < to && is_digit(#[trigger] s[i])
    &&& forall|i: int, j: int|
        #![trigger s[i], s[j]]
        from <= i < j < to ==> !(s[i] == '.' && s[j] == '.')
}

/// `s[from..)` is an exponent: an optional sign, then one or more digits
/// and nothing else.
pub open spec fn exponent_ok(s: Seq<char>, from: int) -> bool {
    let b = if from < s.len() && (s[from] == '+' || s[from] == '-') {
        from + 1
    } else {
        from
    };
    &&& b < s.len()
    &&& forall|i: int| b <= i < s.len() ==> is_digit(#[trigger] s[i])
}

/// `s[from..)` spells `inf`, in any letter case.
pub open spec fn word_inf(s: Seq<char>, from: int) -> bool {
    &&& s.len() == from + 3
    &&& letter(s[from], 'i', 'I')
    &&& letter(s[from + 1], 'n', 'N')
    &&& letter(s[from + 2], 'f', 'F')
}

/// `s[from..)` spells `infinity`, in any letter case.
pub open spec fn word_infinity(s: Seq<char>, from: int) -> bool {
    &&& s.len() == from + 8
    &&& letter(s[from], 'i', 'I')
    &&& letter(s[from + 1], 'n', 'N')
    &&& letter(s[from + 2], 'f', 'F')
    &&& letter(s[from + 3], 'i', 'I')
    &&& letter(s[from + 4], 'n', 'N')
    &&& letter(s[from + 5], 'i', 'I')
    &&& letter(s[from + 6], 't', 'T')
    &&& letter(s[from + 7], 'y', 'Y')
}

/// `s[from..)` spells `nan`, in any letter case.
pub open spec fn word_nan(s: Seq<char>, from: int) -> bool {
    &&& s.len() == from + 3
    &&& letter(s[from], 'n', 'N')
    &&& letter(s[from + 1], 'a', 'A')
    &&& letter(s[from + 2], 'n', 'N')
}

/// `s[from..)` is one of the special floating-point words.
pub open spec fn special_ok(s: Seq<char>, from: int) -> bool {
    word_inf(s, from) || word_infinity(s, from) || word_nan(s, from)
}

/// The texts the host's floating-point parsing accepts: an optional
/// sign, then either a mantissa — digits with at most one point, at
/// least one digit — optionally followed by `e` or `E` and a signed
/// integer exponent, or one of the words `inf`, `infinity`, `nan` in any
/// letter case.
pub open spec fn valid_float_text(s: Seq<char>) -> bool {
    let b = sign_len(s);
    ||| special_ok(s, b)
    ||| mantissa_ok(s, b, s.len() as int)
    ||| exists|k: int|
        #![trigger s[k]]
        b < k < s.len() && (s[k] == 'e' || s[k] == 'E') && mantissa_ok(s, b, k) && exponent_ok(
            s,
            k + 1,
        )
}

/// No position but `p` can split `s` into mantissa and exponent.
spec fn only_marker_at(s: Seq<char>, p: int) -> bool {
    forall|k: int|
        #![trigger s[k]]
        sign_len(s) < k < s.len() && k != p ==> !((s[k] == 'e' || s[k] == 'E') && mantissa_ok(
            s,
            sign_len(s),
            k,
        ) && exponent_ok(s, k + 1))
}

/// Checks for the special words after the optional sign.
fn special_check(text: &str, start: usize) -> (b: bool)
    requires
        start <= text@.len(),
    ensures
        b == special_ok(text@, start as int),
{
    let n = text.unicode_len();
    if n - start == 3 {
        let c0 = text.get_char(start);
        let c1 = text.get_char(start + 1);
        let c2 = text.get_char(start + 2);
        ((c0 == 'i' || c0 == 'I') && (c1 == 'n' || c1 == 'N') && (c2 == 'f' || c2 == 'F')) || ((c0
            == 'n' || c0 == 'N') && (c1 == 'a' || c1 == 'A') && (c2 == 'n' || c2 == 'N'))
    } else if n - start == 8 {
        let c0 = text.get_char(start);
        let c1 = text.get_char(start + 1);
        let c2 = text.get_char(start + 2);
        let c3 = text.get_char(start + 3);
        let c4 = text.get_char(start + 4);
        let c5 = text.get_char(start + 5);
        let c6 = text.get_char(start + 6);
        let c7 = text.get_char(start + 7);
        (c0 == 'i' || c0 == 'I') && (c1 == 'n' || c1 == 'N') && (c2 == 'f' || c2 == 'F') && (c3
            == 'i' || c3 == 'I') && (c4 == 'n' || c4 == 'N') && (c5 == 'i' || c5 == 'I') && (c6
            == 't' || c6 == 'T') && (c7 == 'y' || c7 == 'Y')
    } else {
        false
    }
}

/// Checks [`valid_float_text`] on a text the user typed.
pub fn check_float_text(text: &str) -> (ok: bool)
    ensures
        ok == valid_float_text(text@),
{
    let n = text.unicode_len();
    let start: usize = if n > 0 {
        let c0 = text.get_char(0);
        if c0 == '+' || c0 == '-' {
            1
        } else {
            0
        }
    } else {
        0
    };
    assert(start as int == sign_len(text@));
    if special_check(text, start) {
        return true;
    }
    let mut i: usize = start;
    let mut seen_digit: bool = false;
    let mut seen_dot: bool = false;
    let mut exp_at: usize = n;
    while i < n
        invariant_except_break
            exp_at == n,
        invariant
            exp_at <= n,
            start <= i <= n,
            n == text@.len(),
            start as int == sign_len(text@),
            !special_ok(text@, start as int),
            forall|j: int| start <= j < i ==> is_digit(#[trigger] text@[j]) || text@[j] == '.',
            seen_digit == exists|j: int| start <= j < i && is_digit(#[trigger] text@[j]),
            seen_dot == exists|j: int| start <= j < i && #[trigger] text@[j] == '.',
            forall|j: int, k: int|
                #![trigger text@[j], text@[k]]
                start <= j < k < i ==> !(text@[j] == '.' && text@[k] == '.'),
        ensures
            exp_at <= n,
            start <= i <= n,
            n == text@.len(),
            start as int == sign_len(text@),
            !special_ok(text@, start as int),
            forall|j: int| start <= j < i ==> is_digit(#[trigger] text@[j]) || text@[j] == '.',
            seen_digit == exists|j: int| start <= j < i && is_digit(#[trigger] text@[j]),
            forall|j: int, k: int|
                #![trigger text@[j], text@[k]]
                start <= j < k < i ==> !(text@[j] == '.' && text@[k] == '.'),
            exp_at == n ==> i == n,
            exp_at < n ==> i == exp_at && (text@[exp_at as int] == 'e' || text@[exp_at as int]
                == 'E'),
        decreases n - i,
    {
        let c = text.get_char(i);
        let u = c as u32;
        if 48 <= u && u <= 57 {
            assert(is_digit(text@[i as int]));
            seen_digit = true;
        } else if c == '.' {
            if seen_dot {
                proof {
                    // A second point: no mantissa region, split or not,
                    // can hold both.
                    let w = choose|w: int| start <= w < i && #[trigger] text@[w] == '.';
                    assert(!mantissa_ok(text@, start as int, n as int)) by {
                        assert(text@[w] == '.' && text@[i as int] == '.');
                    }
                    assert forall|k: int|
                        start < k < n && (#[trigger] text@[k] == 'e' || text@[k]
                            == 'E') implies !(mantissa_ok(text@, start as int, k) && exponent_ok(
                        text@,
                        k + 1,
                    )) by {
                        if k <= i as int {
                            assert(is_digit(text@[k]) || text@[k] == '.');
                        } else {
                            if mantissa_ok(text@, start as int, k) {
                                assert(text@[w] == '.' && text@[i as int] == '.');
                            }
                        }
                    }
                    assert(!valid_float_text(text@));
                }
                return false;
            }
            seen_dot = true;
        } else if c == 'e' || c == 'E' {
            exp_at = i;
            break;
        } else {
            proof {
                // A character no number holds, wherever a split were put.
                assert(!mantissa_ok(text@, start as int, n as int)) by {
                    assert(!(is_digit(text@[i as int]) || text@[i as int] == '.'));
                }
                assert forall|k: int|
                    start < k < n && (#[trigger] text@[k] == 'e' || text@[k]
                        == 'E') implies !(mantissa_ok(text@, start as int, k) && exponent_ok(
                    text@,
                    k + 1,
                )) by {
                    if k < i as int {
                        assert(is_digit(text@[k]) || text@[k] == '.');
                    } else if k > i as int {
                        if mantissa_ok(text@, start as int, k) {
                            assert(is_digit(text@[i as int]) || text@[i as int] == '.');
                        }
                    }
                }
                assert(!valid_float_text(text@));
            }
            return false;
        }
        i = i + 1;
    }
    if exp_at == n {
        proof {
            if seen_digit {
                assert(mantissa_ok(text@, start as int, n as int));
            } else {
                assert(!mantissa_ok(text@, start as int, n as int));
                assert forall|k: int|
                    start < k < n implies !(#[trigger] text@[k] == 'e' || text@[k] == 'E') by {
                    assert(is_digit(text@[k]) || text@[k] == '.');
                }
                assert(!valid_float_text(text@));
            }
        }
        return seen_digit;
    }
    // The marker sits at `exp_at`; no other split position can work, and
    // the region before it is all mantissa characters.
    proof {
        assert(!mantissa_ok(text@, start as int, n as int)) by {
            assert(!(is_digit(text@[exp_at as int]) || text@[exp_at as int] == '.'));
        }
        assert forall|k: int|
            sign_len(text@) < k < text@.len() && k != exp_at as int implies !((#[trigger] text@[k]
                == 'e' || text@[k] == 'E') && mantissa_ok(text@, sign_len(text@), k)
            && exponent_ok(text@, k + 1)) by {
            if k < exp_at as int {
                if text@[k] == 'e' || text@[k] == 'E' {
                    assert(is_digit(text@[k]) || text@[k] == '.');
                }
            } else {
                if mantissa_ok(text@, sign_len(text@), k) {
                    assert(is_digit(text@[exp_at as int]) || text@[exp_at as int] == '.');
                }
            }
        }
        assert(only_marker_at(text@, exp_at as int));
    }
    if !seen_digit {
        proof {
            assert(!mantissa_ok(text@, start as int, exp_at as int));
            assert(!valid_float_text(text@));
        }
        return false;
    }
    let mut j: usize = exp_at + 1;
    if j < n {
        let c = text.get_char(j);
        if c == '+' || c == '-' {
            j = j + 1;
        }
    }
    let ghost tail = j as int;
    proof {
        assert(tail == (if exp_at as int + 1 < n as int && (text@[exp_at as int + 1] == '+'
            || text@[exp_at as int + 1] == '-') {
            exp_at as int + 2
        } else {
            exp_at as int + 1
        }));
    }
    if j == n {
        proof {
            assert(!exponent_ok(text@, exp_at as int + 1));
            assert(!valid_float_text(text@));
        }
        return false;
    }
    while j < n
        invariant
            n == text@.len(),
            start as int == sign_len(text@),
            !special_ok(text@, start as int),
            start <= exp_at < n,
            text@[exp_at as int] == 'e' || text@[exp_at as int] == 'E',
            forall|t: int|
                start <= t < exp_at ==> is_digit(#[trigger] text@[t]) || text@[t] == '.',
            exists|t: int| start <= t < exp_at && is_digit(#[trigger] text@[t]),
            forall|t: int, u: int|
                #![trigger text@[t], text@[u]]
                start <= t < u < exp_at ==> !(text@[t] == '.' && text@[u] == '.'),
            only_marker_at(text@, exp_at as int),
            !mantissa_ok(text@, start as int, n as int),
            tail == (if exp_at as int + 1 < n as int && (text@[exp_at as int + 1] == '+'
                || text@[exp_at as int + 1] == '-') {
                exp_at as int + 2
            } else {
                exp_at as int + 1
            }),
            tail <= j <= n,
            tail < n,
            forall|t: int| tail <= t < j ==> is_digit(#[trigger] text@[t]),
        decreases n - j,
    {
        let c = text.get_char(j);
        let u = c as u32;
        if !(48 <= u && u <= 57) {
            proof {
                assert(!exponent_ok(text@, exp_at as int + 1)) by {
                    assert(!is_digit(text@[j as int]));
                }
                assert(!valid_float_text(text@));
            }
            return false;
        }
        assert(is_digit(text@[j as int]));
        j = j + 1;
    }
    proof {
        assert(exponent_ok(text@, exp_at as int + 1));
        assert(mantissa_ok(text@, start as int, exp_at as int));
        let d = choose|t: int| start <= t < exp_at && is_digit(#[trigger] text@[t]);
        assert(sign_len(text@) < exp_at as int);
        assert(valid_float_text(text@)) by {
            assert((text@[exp_at as int] == 'e' || text@[exp_at as int] == 'E') && mantissa_ok(
                text@,
                sign_len(text@),
                exp_at as int,
            ) && exponent_ok(text@, exp_at as int + 1));
        }
    }
    true
}

/// One coordinate, kept as the text the user entered; always valid.
#[derive(Debug)]
pub struct CoordText {
    text: String,
}

impl View for CoordText {
    type V = Seq<char>;

    closed spec fn view(&self) -> Seq<char> {
        self.text@
    }
}

impl CoordText {
    /// Every held text is accepted numeric text.
    pub open spec fn wf(&self) -> bool {
        valid_float_text(self@)
    }

    /// The default coordinate: `0`.
    pub fn origin() -> (c: CoordText)
        ensures
            c@ == "0"@,
            c.wf(),
    {
        let c = CoordText { text: String::from_str("0") };
        proof {
            reveal_strlit("0");
            assert(c@ =~= seq!['0']);
            assert('0' != '-' && '0' != '+');
            assert(sign_len(c@) == 0);
            assert(is_digit(c@[0]));
            assert(mantissa_ok(c@, 0, 1));
        }
        c
    }

    /// Accepts numeric text; rejects anything else as
    /// [`DevtoolsError::MalformedCoordinateInput`].
    pub fn parse(text: &str) -> (r: Result<CoordText, DevtoolsError>)
        ensures
            r matches Ok(c) ==> c@ == text@ && c.wf(),
            r is Ok <==> valid_float_text(text@),
            r matches Err(e) ==> e == DevtoolsError::MalformedCoordinateInput,
    {
        if check_float_text(text) {
            Ok(CoordText { text: String::from_str(text) })
        } else {
            Err(DevtoolsError::MalformedCoordinateInput)
        }
    }

    /// Takes newly typed text if it is valid, else keeps `self` — the
    /// fallback the inspector's coordinate inputs show.
    pub fn updated(&self, text: &str) -> (c: CoordText)
        requires
            self.wf(),
        ensures
            valid_float_text(text@) ==> c@ == text@,
            !valid_float_text(text@) ==> c@ == self@,
            c.wf(),
    {
        if check_float_text(text) {
            CoordText { text: String::from_str(text) }
        } else {
            CoordText { text: self.text.clone() }
        }
    }

    /// A copy of this coordinate.
    pub fn duplicate(&self) -> (c: CoordText)
        ensures
            c@ == self@,
    {
        CoordText { text: self.text.clone() }
    }

    /// The text itself, for the host's input field and for conversion to
    /// the host's numeric type.
    pub fn as_text(&self) -> (s: &str)
        ensures
            s@ == self@,
    {
        self.text.as_str()
    }
}

/// The editable local point of a pointer injection; starts at `(0, 0)`.
#[derive(Debug)]
pub struct CoordPair {
    pub x: CoordText,
    pub y: CoordText,
}

impl CoordPair {
    pub open spec fn wf(&self) -> bool {
        self.x.wf() && self.y.wf()
    }

    /// Both components at the default `0`.
    pub fn origin() -> (p: CoordPair)
        ensures
            p.x@ == "0"@,
            p.y@ == "0"@,
            p.wf(),
    {
        CoordPair { x: CoordText::origin(), y: CoordText::origin() }
    }

    /// Replaces the first component when the text is valid; keeps it
    /// otherwise.  The other component never moves.
    pub fn set_x(&mut self, text: &str) -> (accepted: bool)
        requires
            old(self).wf(),
        ensures
            accepted == valid_float_text(text@),
            accepted ==> final(self).x@ == text@,
            !accepted ==> final(self).x@ == old(self).x@,
            final(self).y@ == old(self).y@,
            final(self).wf(),
    {
        let ok = check_float_text(text);
        if ok {
            self.x = CoordText { text: String::from_str(text) };
        }
        ok
    }

    /// Replaces the second component when the text is valid; keeps it
    /// otherwise.  The other component never moves.
    pub fn set_y(&mut self, text: &str) -> (accepted: bool)
        requires
            old(self).wf(),
        ensures
            accepted == valid_float_text(text@),
            accepted ==> final(self).y@ == text@,
            !accepted ==> final(self).y@ == old(self).y@,
            final(self).x@ == old(self).x@,
            final(self).wf(),
    {
        let ok = check_float_text(text);
        if ok {
            self.y = CoordText { text: String::from_str(text) };
        }
        ok
    }

    /// A copy of the pair.
    pub fn duplicate(&self) -> (p: CoordPair)
        ensures
            p.x@ == self.x@,
            p.y@ == self.y@,
    {
        CoordPair { x: self.x.duplicate(), y: self.y.duplicate() }
    }
}

} // verus!
