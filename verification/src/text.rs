//! Character-level building blocks: decimal numerals and separator splitting.

use vstd::prelude::*;
use vstd::string::StrSliceExecFns;
use vstd::string::StringExecFns;

verus! {

/// One character is a decimal digit.
pub open spec fn is_digit_char(c: char) -> bool {
    48 <= c as u32 <= 57
}

/// The numeric value of one digit character.
pub open spec fn digit_val(c: char) -> nat {
    ((c as u32) - 48) as nat
}

/// Every character of the string is a decimal digit.
pub open spec fn all_digits(s: Seq<char>) -> bool {
    forall|i: int| 0 <= i < s.len() ==> is_digit_char(s[i])
}

/// The value of a string of decimal digits, most significant first.
pub open spec fn dec_value(s: Seq<char>) -> nat
    decreases s.len(),
{
    if s.len() == 0 {
        0
    } else {
        dec_value(s.drop_last()) * 10 + digit_val(s.last())
    }
}

/// A non-empty digit string without a superfluous leading zero.
pub open spec fn strict_numeral(s: Seq<char>) -> bool {
    &&& s.len() >= 1
    &&& all_digits(s)
    &&& (s.len() == 1 || s[0] != '0')
}

/// A digit string is worth at least any of its prefixes.
pub proof fn lemma_dec_value_prefix(s: Seq<char>, j: int)
    requires
        all_digits(s),
        0 <= j <= s.len(),
    ensures
        dec_value(s.take(j)) <= dec_value(s),
    decreases s.len() - j,
{
    if j < s.len() {
        lemma_dec_value_prefix(s, j + 1);
        assert(s.take(j + 1).drop_last() =~= s.take(j));
        assert(dec_value(s.take(j + 1)) == dec_value(s.take(j)) * 10 + digit_val(
            s.take(j + 1).last(),
        ));
        assert(dec_value(s.take(j)) * 10 >= dec_value(s.take(j)));
    } else {
        assert(s.take(j) =~= s);
    }
}

/// Reads `s` as a decimal numeral, of any length, whose value is at most
/// `bound`; with `strict`, a leading zero is refused unless the numeral is
/// the single digit `0`. Returns `None` on anything else.
pub fn parse_decimal(s: &str, bound: u64, strict: bool) -> (r: Option<u64>)
    ensures
        ({
            let ok = s@.len() >= 1 && all_digits(s@) && (!strict || s@.len() == 1 || s@[0] != '0')
                && dec_value(s@) <= bound;
            &&& r is Some <==> ok
            &&& r is Some ==> r->0 as nat == dec_value(s@)
        }),
{
    let n = s.unicode_len();
    if n == 0 {
        return None;
    }
    let mut acc: u64 = 0;
    let mut i: usize = 0;
    proof {
        assert(s@.take(0) =~= Seq::<char>::empty());
    }
    while i < n
        invariant
            0 < n == s@.len(),
            0 <= i <= n,
            all_digits(s@.take(i as int)),
            acc as nat == dec_value(s@.take(i as int)),
            acc <= bound,
            strict ==> n == 1 || i == 0 || s@[0] != '0',
        decreases n - i,
    {
        let c = s.get_char(i);
        let d = c as u32;
        if d < 48 || d > 57 {
            proof {
                assert(!is_digit_char(s@[i as int]));
            }
            return None;
        }
        if strict && i == 0 && n > 1 && d == 48 {
            proof {
                assert(s@[0] == '0');
            }
            return None;
        }
        let dv: u64 = (d - 48) as u64;
        proof {
            let t = s@.take(i + 1);
            assert(t.drop_last() =~= s@.take(i as int));
            assert(t.last() == s@[i as int]);
            assert(is_digit_char(s@[i as int]));
            assert(all_digits(t)) by {
                assert(forall|k: int| 0 <= k < t.len() ==> t[k] == s@[k]);
            }
            assert(dec_value(t) == acc * 10 + dv);
            vstd::arithmetic::div_mod::lemma_fundamental_div_mod(bound as int, 10);
        }
        // The next digit would push the value past the bound exactly when
        // acc * 10 + dv > bound, tested without computing past the bound.
        if acc > bound / 10 || (acc == bound / 10 && dv > bound % 10) {
            proof {
                assert(acc * 10 + dv > bound);
                if all_digits(s@) {
                    lemma_dec_value_prefix(s@, i + 1);
                    assert(dec_value(s@) > bound);
                }
            }
            return None;
        }
        proof {
            assert(acc * 10 + dv <= bound);
        }
        acc = acc * 10 + dv;
        i = i + 1;
    }
    proof {
        assert(s@.take(n as int) =~= s@);
    }
    Some(acc)
}

/// The pieces of `s` between occurrences of `sep`: always at least one piece,
/// and one more piece per separator, each possibly empty.
pub open spec fn split_on(s: Seq<char>, sep: char) -> Seq<Seq<char>>
    decreases s.len(),
{
    if s.len() == 0 {
        seq![Seq::<char>::empty()]
    } else if s[0] == sep {
        seq![Seq::<char>::empty()] + split_on(s.drop_first(), sep)
    } else {
        let rest = split_on(s.drop_first(), sep);
        seq![seq![s[0]] + rest[0]] + rest.drop_first()
    }
}

/// Splitting yields at least one piece.
pub proof fn lemma_split_on_nonempty(s: Seq<char>, sep: char)
    ensures
        split_on(s, sep).len() >= 1,
    decreases s.len(),
{
    if s.len() > 0 && s[0] != sep {
        lemma_split_on_nonempty(s.drop_first(), sep);
    }
}

/// A string without the separator is one single piece.
pub proof fn lemma_split_on_none(s: Seq<char>, sep: char)
    requires
        forall|k: int| 0 <= k < s.len() ==> s[k] != sep,
    ensures
        split_on(s, sep) =~~= seq![s],
    decreases s.len(),
{
    if s.len() > 0 {
        lemma_split_on_none(s.drop_first(), sep);
        lemma_split_on_nonempty(s.drop_first(), sep);
        assert(seq![s[0]] + s.drop_first() =~= s);
    }
}

/// Splitting at the first separator: everything before it is the first
/// piece, and the rest splits on its own.
pub proof fn lemma_split_on_first(s: Seq<char>, sep: char, m: int)
    requires
        0 <= m < s.len(),
        s[m] == sep,
        forall|k: int| 0 <= k < m ==> s[k] != sep,
    ensures
        split_on(s, sep) =~~= seq![s.take(m)] + split_on(s.skip(m + 1), sep),
    decreases m,
{
    if m == 0 {
        assert(s.take(0) =~= Seq::<char>::empty());
        assert(s.skip(1) =~= s.drop_first());
    } else {
        let t = s.drop_first();
        lemma_split_on_first(t, sep, m - 1);
        lemma_split_on_nonempty(t, sep);
        assert(t.take(m - 1) =~= s.take(m).drop_first());
        assert(t.skip(m) =~= s.skip(m + 1));
        assert(seq![s[0]] + s.take(m).drop_first() =~= s.take(m));
    }
}

/// The views of a vector of strings.
pub open spec fn views_of(v: Seq<String>) -> Seq<Seq<char>> {
    v.map_values(|t: String| t@)
}

/// Splits `s` at every occurrence of `sep`, as `split_on` describes.
pub fn split_on_char(s: &str, sep: char) -> (r: Vec<String>)
    ensures
        views_of(r@) == split_on(s@, sep),
{
    let n = s.unicode_len();
    let mut pieces: Vec<String> = Vec::new();
    let mut start: usize = 0;
    let mut i: usize = 0;
    proof {
        assert(s@.skip(0) =~= s@);
        assert(views_of(pieces@) =~= Seq::<Seq<char>>::empty());
    }
    while i < n
        invariant
            n == s@.len(),
            0 <= start <= i <= n,
            forall|k: int| start <= k < i ==> s@[k] != sep,
            split_on(s@, sep) =~~= views_of(pieces@) + split_on(s@.skip(start as int), sep),
        decreases n - i,
    {
        let c = s.get_char(i);
        if c == sep {
            let piece = s.substring_char(start, i).to_owned();
            proof {
                let tail = s@.skip(start as int);
                lemma_split_on_first(tail, sep, i - start);
                assert(tail.take(i - start) =~= s@.subrange(start as int, i as int));
                assert(tail.skip(i - start + 1) =~= s@.skip(i + 1));
                assert(views_of(pieces@.push(piece)) =~= views_of(pieces@) + seq![piece@]);
            }
            pieces.push(piece);
            start = i + 1;
        }
        i = i + 1;
    }
    let last = s.substring_char(start, n).to_owned();
    proof {
        let tail = s@.skip(start as int);
        lemma_split_on_none(tail, sep);
        assert(tail =~= s@.subrange(start as int, n as int));
        assert(views_of(pieces@.push(last)) =~= views_of(pieces@) + seq![last@]);
    }
    pieces.push(last);
    proof {
        assert(views_of(pieces@) =~= split_on(s@, sep));
    }
    pieces
}

} // verus!
