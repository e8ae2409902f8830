//! The canonical decimal-string normalizer. Numeric fields are
//! rendered at a fixed precision of eight fractional digits before
//! they are hashed or signed; this module trims that rendering to the
//! one canonical spelling of the value: no trailing zero fractional
//! digits, no bare trailing decimal point, and plain `"0"` for a
//! negative zero.

use vstd::prelude::*;

verus! {

/// The number of fractional digits a value is rendered with before
/// it is trimmed.
pub const WIRE_DECIMALS: u8 = 8;

/// `s` with every trailing `'0'` removed.
pub open spec fn trim_trailing_zeros(s: Seq<char>) -> Seq<char>
    decreases s.len(),
{
    if s.len() > 0 && s.last() == '0' {
        trim_trailing_zeros(s.drop_last())
    } else {
        s
    }
}

/// `s` with one trailing `'.'` removed, if it ends in one.
pub open spec fn trim_trailing_point(s: Seq<char>) -> Seq<char> {
    if s.len() > 0 && s.last() == '.' {
        s.drop_last()
    } else {
        s
    }
}

/// The canonical form of a fixed-precision rendering: trailing zeros
/// dropped, then a bare trailing point dropped, and the negative-zero
/// spelling `"-0"` replaced by `"0"`.
pub open spec fn canonical_form(s: Seq<char>) -> Seq<char> {
    let t = trim_trailing_point(trim_trailing_zeros(s));
    if t == seq!['-', '0'] {
        seq!['0']
    } else {
        t
    }
}

/// Whether `c` is a decimal digit character.
pub open spec fn is_digit(c: char) -> bool {
    '0' <= c && c <= '9'
}

/// The shape a finite value has once rendered at the wire precision:
/// an optional minus sign, one or more integer digits, a point, and
/// exactly `WIRE_DECIMALS` fractional digits.
pub open spec fn is_fixed_rendering(s: Seq<char>) -> bool {
    let d = WIRE_DECIMALS as int;
    let point = s.len() - d - 1;
    let first: int = if s.len() > 0 && s[0] == '-' {
        1
    } else {
        0
    };
    &&& s.len() >= first + d + 2
    &&& s[point] == '.'
    &&& (forall|i: int| first <= i < point ==> is_digit(#[trigger] s[i]))
    &&& (forall|i: int| point < i < s.len() ==> is_digit(#[trigger] s[i]))
}

/// A canonical number string: an optional minus sign, one or more
/// integer digits, and optionally a point followed by one or more
/// fractional digits of which the last is not zero.
pub open spec fn is_canonical_number(s: Seq<char>) -> bool {
    let first: int = if s.len() > 0 && s[0] == '-' {
        1
    } else {
        0
    };
    &&& s.len() > first
    &&& ((forall|i: int| first <= i < s.len() ==> is_digit(#[trigger] s[i])) || (exists|p: int|
        {
            &&& first < p < s.len() - 1
            &&& s[p] == '.'
            &&& (forall|i: int| first <= i < p ==> is_digit(#[trigger] s[i]))
            &&& (forall|i: int| p < i < s.len() ==> is_digit(#[trigger] s[i]))
            &&& s.last() != '0'
        }))
}

proof fn lemma_trim_zeros_shape(s: Seq<char>)
    ensures
        trim_trailing_zeros(s).len() <= s.len(),
        trim_trailing_zeros(s) == s.take(trim_trailing_zeros(s).len() as int),
        trim_trailing_zeros(s).len() > 0 ==> trim_trailing_zeros(s).last() != '0',
        forall|i: int| trim_trailing_zeros(s).len() <= i < s.len() ==> s[i] == '0',
    decreases s.len(),
{
    if s.len() > 0 && s.last() == '0' {
        lemma_trim_zeros_shape(s.drop_last());
        let z = trim_trailing_zeros(s);
        assert(z == trim_trailing_zeros(s.drop_last()));
        assert(s.drop_last().take(z.len() as int) =~= s.take(z.len() as int));
        assert(forall|i: int|
            z.len() <= i < s.len() - 1 ==> s.drop_last()[i] == #[trigger] s[i]);
    } else {
        assert(s.take(s.len() as int) =~= s);
    }
}

/// Law: the canonical form of any fixed-precision rendering is a
/// well-formed canonical number string — never empty, a prefix of
/// the rendering unless it collapsed to `"0"`, never ending in a
/// point, keeping no trailing zero fractional digit, and never the
/// negative-zero spelling.
pub proof fn lemma_canonical_form_well_formed(s: Seq<char>)
    requires
        is_fixed_rendering(s),
    ensures
        canonical_form(s).len() > 0,
        canonical_form(s) == seq!['0'] || canonical_form(s) == s.take(
            canonical_form(s).len() as int,
        ),
        canonical_form(s).last() != '.',
        canonical_form(s).last() != '0' || !canonical_form(s).contains('.'),
        canonical_form(s) != seq!['-', '0'],
        is_canonical_number(canonical_form(s)),
{
    lemma_trim_zeros_shape(s);
    let d = WIRE_DECIMALS as int;
    let point = s.len() - d - 1;
    let first: int = if s[0] == '-' {
        1
    } else {
        0
    };
    let z = trim_trailing_zeros(s);
    let len_z = z.len() as int;
    if len_z <= point {
        assert(s[point] == '0');
        assert(false);
    }
    let t = trim_trailing_point(z);
    if len_z == point + 1 {
        assert(z.last() == s[point]);
        assert(t == z.drop_last());
        assert(t =~= s.take(point));
        assert(t.len() == point);
        assert(is_digit(t.last()));
        assert(forall|i: int| 0 <= i < point ==> #[trigger] t[i] == s[i]);
        assert(forall|i: int| 0 <= i < t.len() ==> t[i] != '.');
        assert(!t.contains('.'));
        assert(forall|i: int| first <= i < t.len() ==> is_digit(#[trigger] t[i]));
        assert(is_canonical_number(t));
    } else {
        assert(z.last() == s[len_z - 1]);
        assert(point < len_z - 1 < s.len());
        assert(is_digit(z.last()));
        assert(z.last() != '.');
        assert(t == z);
        assert(forall|i: int| 0 <= i < len_z ==> #[trigger] t[i] == s[i]);
        assert(t[point] == s[point]);
        assert(t.contains('.'));
        assert(first < point < t.len() - 1);
        assert(forall|i: int| first <= i < point ==> is_digit(#[trigger] t[i]));
        assert(forall|i: int| point < i < t.len() ==> is_digit(#[trigger] t[i]));
        assert(t.last() != '0');
        assert(is_canonical_number(t));
    }
    if t == seq!['-', '0'] {
        assert(canonical_form(s) == seq!['0']);
        assert(forall|i: int| 0 <= i < 1 ==> seq!['0'][i] != '.');
        assert(!seq!['0'].contains('.'));
        assert(seq!['0'][0] == '0' && is_digit('0'));
        assert(is_canonical_number(seq!['0']));
    } else {
        assert(canonical_form(s) == t);
    }
}

/// Trim a fixed-precision decimal rendering to its canonical form.
pub fn canonicalize_fixed(s: &str) -> (r: String)
    ensures
        r@ == canonical_form(s@),
        is_fixed_rendering(s@) ==> is_canonical_number(r@),
{
    proof {
        if is_fixed_rendering(s@) {
            lemma_canonical_form_well_formed(s@);
        }
    }
    let n = s.unicode_len();
    let mut end = n;
    proof {
        assert(s@.subrange(0, n as int) =~= s@);
    }
    while end > 0 && s.get_char(end - 1) == '0'
        invariant
            end <= n,
            n == s@.len(),
            trim_trailing_zeros(s@) == trim_trailing_zeros(s@.subrange(0, end as int)),
        decreases end,
    {
        proof {
            let t = s@.subrange(0, end as int);
            assert(t.last() == s@[end - 1]);
            assert(t.drop_last() =~= s@.subrange(0, end - 1));
        }
        end = end - 1;
    }
    proof {
        let t = s@.subrange(0, end as int);
        if end > 0 {
            assert(t.last() == s@[end - 1]);
        }
        assert(trim_trailing_zeros(t) == t);
    }
    let cut: usize = if end > 0 && s.get_char(end - 1) == '.' {
        end - 1
    } else {
        end
    };
    proof {
        let t = s@.subrange(0, end as int);
        if end > 0 && s@[end - 1] == '.' {
            assert(t.last() == '.');
            assert(t.drop_last() =~= s@.subrange(0, cut as int));
        }
        assert(trim_trailing_point(trim_trailing_zeros(s@)) == s@.subrange(0, cut as int));
    }
    if cut == 2 && s.get_char(0) == '-' && s.get_char(1) == '0' {
        proof {
            reveal_strlit("0");
            assert(s@.subrange(0, 2) =~= seq!['-', '0']);
        }
        String::from_str("0")
    } else {
        proof {
            let t = s@.subrange(0, cut as int);
            assert(t.len() == cut);
            if cut == 2 {
                assert(t[0] == s@[0] && t[1] == s@[1]);
            }
            assert(t != seq!['-', '0']);
        }
        String::from_str(s.substring_char(0, cut))
    }
}

} // verus!
