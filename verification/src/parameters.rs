//! The parameters a script action runs with. Each defined parameter takes
//! its default when it is missing; a required one must then be there; a
//! value is at most 256 bytes and of its parameter's kind (one of the
//! choices, `true` or `false`, or a decimal number); and no parameter
//! outside the definition is accepted.
use vstd::prelude::*;

use crate::actions::{parameters_view, ActionError, ActionParameter, ParameterKind, ParameterView};
use crate::settings::{lemma_lex_lt_irreflexive, lemma_lex_lt_total, lemma_lex_lt_transitive, lex_less, lex_lt};
use crate::text::{ascii_lower, chars_of, concat, copy_string, str_eq, to_ascii_lower};
use vstd::utf8::encode_utf8;

verus! {

/// Whether every character of `s` is a decimal digit.
pub open spec fn all_digits(s: Seq<char>) -> bool {
    forall|i: int| 0 <= i < s.len() ==> '0' <= #[trigger] s[i] <= '9'
}

/// Digits with at most one `.` among them, and at least one digit.
pub open spec fn decimal_text(m: Seq<char>) -> bool {
    if !m.contains('.') {
        m.len() > 0 && all_digits(m)
    } else {
        m.len() >= 2 && exists|k: int|
            0 <= k < m.len() && m[k] == '.' && all_digits(m.subrange(0, k)) && all_digits(
                #[trigger] m.subrange(k + 1, m.len() as int),
            )
    }
}

/// Digits after an optional sign.
pub open spec fn exponent_text(e: Seq<char>) -> bool {
    (e.len() > 0 && all_digits(e)) || (e.len() >= 2 && (e[0] == '+' || e[0] == '-') && all_digits(
        e.subrange(1, e.len() as int),
    ))
}

/// A decimal, then optionally `e` and an exponent.
pub open spec fn number_text(n: Seq<char>) -> bool {
    if !n.contains('e') {
        decimal_text(n)
    } else {
        exists|k: int|
            0 <= k < n.len() && n[k] == 'e' && decimal_text(n.subrange(0, k)) && exponent_text(
                #[trigger] n.subrange(k + 1, n.len() as int),
            )
    }
}

/// `l` without one leading sign.
pub open spec fn unsigned(l: Seq<char>) -> Seq<char> {
    if l.len() > 0 && (l[0] == '+' || l[0] == '-') {
        l.subrange(1, l.len() as int)
    } else {
        l
    }
}

/// Whether `s` is a number in the grammar that `f64::from_str` documents:
/// in ASCII lower case, an optional sign, then `inf`, `infinity`, `nan`,
/// or a decimal with an optional exponent.
pub open spec fn float_text(s: Seq<char>) -> bool {
    let b = unsigned(ascii_lower(s));
    b == "inf"@ || b == "infinity"@ || b == "nan"@ || number_text(b)
}

/// The first position in `v[a..b]` that holds `c`, if any.
fn first_in(v: &Vec<char>, a: usize, b: usize, c: char) -> (r: Option<usize>)
    requires
        a <= b <= v@.len(),
    ensures
        match r {
            Some(k) => a <= k < b && v@[k as int] == c && forall|j: int| a <= j < k ==> v@[j] != c,
            None => forall|j: int| a <= j < b ==> v@[j] != c,
        },
{
    let mut k = a;
    while k < b
        invariant
            a <= k <= b,
            b <= v@.len(),
            forall|j: int| a <= j < k ==> v@[j] != c,
        decreases b - k,
    {
        if v[k] == c {
            return Some(k);
        }
        k += 1;
    }
    None
}

/// Whether `v[a..b]` is all digits.
fn digits_in(v: &Vec<char>, a: usize, b: usize) -> (r: bool)
    requires
        a <= b <= v@.len(),
    ensures
        r == all_digits(v@.subrange(a as int, b as int)),
{
    let mut k = a;
    while k < b
        invariant
            a <= k <= b,
            b <= v@.len(),
            forall|j: int| a <= j < k ==> '0' <= #[trigger] v@[j] <= '9',
        decreases b - k,
    {
        if v[k] < '0' || v[k] > '9' {
            assert(v@.subrange(a as int, b as int)[k - a] == v@[k as int]);
            return false;
        }
        k += 1;
    }
    assert forall|i: int| 0 <= i < (b - a) implies '0' <= #[trigger] v@.subrange(a as int, b as int)[i] <= '9' by {
        assert(v@.subrange(a as int, b as int)[i] == v@[a + i]);
    }
    true
}

/// A decimal holds only digits and `.`.
proof fn lemma_decimal_has_no(m: Seq<char>, c: char)
    requires
        decimal_text(m),
        c != '.',
        !('0' <= c <= '9'),
    ensures
        !m.contains(c),
{
    if m.contains('.') {
        let k = choose|k: int|
            0 <= k < m.len() && m[k] == '.' && all_digits(m.subrange(0, k)) && all_digits(
                #[trigger] m.subrange(k + 1, m.len() as int),
            );
        if m.contains(c) {
            let j = choose|j: int| 0 <= j < m.len() && m[j] == c;
            if j < k {
                assert(m.subrange(0, k)[j] == m[j]);
            } else if j > k {
                assert(m.subrange(k + 1, m.len() as int)[j - k - 1] == m[j]);
            }
        }
    } else {
        if m.contains(c) {
            let j = choose|j: int| 0 <= j < m.len() && m[j] == c;
            assert(m[j] == c);
        }
    }
}

/// Whether `v[a..b]` is a decimal.
fn decimal_in(v: &Vec<char>, a: usize, b: usize) -> (r: bool)
    requires
        a <= b <= v@.len(),
    ensures
        r == decimal_text(v@.subrange(a as int, b as int)),
{
    let ghost m = v@.subrange(a as int, b as int);
    match first_in(v, a, b, '.') {
        None => {
            assert(!m.contains('.')) by {
                if m.contains('.') {
                    let j = choose|j: int| 0 <= j < m.len() && m[j] == '.';
                    assert(m[j] == v@[a + j]);
                }
            }
            b > a && digits_in(v, a, b)
        },
        Some(k) => {
            assert(m[k - a] == '.');
            assert(m.contains('.'));
            let ghost kk = k - a;
            assert(m.subrange(0, kk) =~= v@.subrange(a as int, k as int));
            assert(m.subrange(kk + 1, m.len() as int) =~= v@.subrange(k + 1, b as int));
            let r = b - a >= 2 && digits_in(v, a, k) && digits_in(v, k + 1, b);
            proof {
                if !r && m.len() >= 2 {
                    assert forall|j: int|
                        0 <= j < m.len() && m[j] == '.' && all_digits(m.subrange(0, j)) implies !all_digits(
                        #[trigger] m.subrange(j + 1, m.len() as int),
                    ) by {
                        if j > kk {
                            assert(m.subrange(0, j)[kk] == m[kk]);
                        } else if j < kk {
                            assert(m[j] == v@[a + j]);
                        }
                    }
                }
            }
            r
        },
    }
}

/// Whether `v[a..b]` is an exponent.
fn exponent_in(v: &Vec<char>, a: usize, b: usize) -> (r: bool)
    requires
        a <= b <= v@.len(),
    ensures
        r == exponent_text(v@.subrange(a as int, b as int)),
{
    let ghost e = v@.subrange(a as int, b as int);
    if b > a && digits_in(v, a, b) {
        return true;
    }
    if b - a >= 2 && (v[a] == '+' || v[a] == '-') {
        assert(e[0] == v@[a as int]);
        assert(e.subrange(1, e.len() as int) =~= v@.subrange(a + 1, b as int));
        digits_in(v, a + 1, b)
    } else {
        proof {
            if e.len() >= 2 {
                assert(e[0] == v@[a as int]);
            }
        }
        false
    }
}

/// Whether `v[a..b]` is a number: a decimal with an optional exponent.
fn number_in(v: &Vec<char>, a: usize, b: usize) -> (r: bool)
    requires
        a <= b <= v@.len(),
    ensures
        r == number_text(v@.subrange(a as int, b as int)),
{
    let ghost n = v@.subrange(a as int, b as int);
    match first_in(v, a, b, 'e') {
        None => {
            assert(!n.contains('e')) by {
                if n.contains('e') {
                    let j = choose|j: int| 0 <= j < n.len() && n[j] == 'e';
                    assert(n[j] == v@[a + j]);
                }
            }
            decimal_in(v, a, b)
        },
        Some(k) => {
            let ghost kk = k - a;
            assert(n[kk] == 'e');
            assert(n.contains('e'));
            assert(n.subrange(0, kk) =~= v@.subrange(a as int, k as int));
            assert(n.subrange(kk + 1, n.len() as int) =~= v@.subrange(k + 1, b as int));
            let r = decimal_in(v, a, k) && exponent_in(v, k + 1, b);
            proof {
                if !r {
                    assert forall|j: int|
                        0 <= j < n.len() && n[j] == 'e' && decimal_text(n.subrange(0, j)) implies !exponent_text(
                        #[trigger] n.subrange(j + 1, n.len() as int),
                    ) by {
                        if j > kk {
                            lemma_decimal_has_no(n.subrange(0, j), 'e');
                            assert(n.subrange(0, j)[kk] == 'e');
                        } else if j < kk {
                            assert(n[j] == v@[a + j]);
                        }
                    }
                }
            }
            r
        },
    }
}

/// Whether `v[a..b]` is the text `lit`.
fn range_is(v: &Vec<char>, a: usize, b: usize, lit: &str) -> (r: bool)
    requires
        a <= b <= v@.len(),
    ensures
        r == (v@.subrange(a as int, b as int) == lit@),
{
    let l = chars_of(lit);
    if b - a != l.len() {
        return false;
    }
    let mut k: usize = 0;
    while k < l.len()
        invariant
            k <= l@.len(),
            l@ == lit@,
            b - a == l@.len(),
            a <= b <= v@.len(),
            forall|j: int| 0 <= j < k ==> v@[a + j] == l@[j],
        decreases l.len() - k,
    {
        if v[a + k] != l[k] {
            assert(v@.subrange(a as int, b as int)[k as int] != lit@[k as int]);
            return false;
        }
        k += 1;
    }
    assert(v@.subrange(a as int, b as int) =~= lit@);
    true
}

/// Whether `s` is a number as `f64::from_str` reads numbers.
pub fn is_float_text(s: &str) -> (r: bool)
    ensures
        r == float_text(s@),
{
    let lower = to_ascii_lower(s);
    let v = chars_of(lower.as_str());
    let start: usize = if v.len() > 0 && (v[0] == '+' || v[0] == '-') {
        1
    } else {
        0
    };
    let end = v.len();
    assert(unsigned(ascii_lower(s@)) =~= v@.subrange(start as int, end as int));
    range_is(&v, start, end, "inf") || range_is(&v, start, end, "infinity") || range_is(&v, start, end, "nan")
        || number_in(&v, start, end)
}

/// Whether `v` is a value of `p`'s kind.
pub open spec fn value_fits(p: ParameterView, v: Seq<char>) -> bool {
    match p.kind {
        ParameterKind::Text => true,
        ParameterKind::Enum => p.choices.contains(v),
        ParameterKind::Boolean => v == "true"@ || v == "false"@,
        ParameterKind::Number => float_text(v),
    }
}

/// The values given by key: the later of two pairs with one key wins.
pub open spec fn pairs_map(s: Seq<(Seq<char>, Seq<char>)>) -> Map<Seq<char>, Seq<char>>
    decreases s.len(),
{
    if s.len() == 0 {
        Map::empty()
    } else {
        pairs_map(s.drop_last()).insert(s.last().0, s.last().1)
    }
}

/// Whether no key occurs twice in `s`.
pub open spec fn keys_unique(s: Seq<(Seq<char>, Seq<char>)>) -> bool {
    forall|i: int, j: int| 0 <= i < j < s.len() ==> (#[trigger] s[i]).0 != (#[trigger] s[j]).0
}

/// The models of a list of pairs.
pub open spec fn pairs_view(v: Seq<(String, String)>) -> Seq<(Seq<char>, Seq<char>)> {
    v.map_values(|p: (String, String)| (p.0@, p.1@))
}

/// One parameter checked against `m`: its default filled in, then its
/// presence, length and kind.
pub open spec fn param_step(p: ParameterView, m: Map<Seq<char>, Seq<char>>) -> Result<
    Map<Seq<char>, Seq<char>>,
    Seq<char>,
> {
    let m2 = if !m.contains_key(p.key) && p.default_value is Some {
        m.insert(p.key, p.default_value->0)
    } else {
        m
    };
    if !m2.contains_key(p.key) {
        if p.required {
            Err("required parameter '"@ + p.label + "' is missing"@)
        } else {
            Ok(m2)
        }
    } else if encode_utf8(m2[p.key]).len() > 256 {
        Err("parameter '"@ + p.label + "' is too long"@)
    } else if !value_fits(p, m2[p.key]) {
        Err("parameter '"@ + p.label + "' has an invalid value"@)
    } else {
        Ok(m2)
    }
}

/// The parameters `params` checked in order against `m`.
pub open spec fn params_checked(params: Seq<ParameterView>, m: Map<Seq<char>, Seq<char>>) -> Result<
    Map<Seq<char>, Seq<char>>,
    Seq<char>,
>
    decreases params.len(),
{
    if params.len() == 0 {
        Ok(m)
    } else {
        match params_checked(params.drop_last(), m) {
            Err(e) => Err(e),
            Ok(m1) => param_step(params.last(), m1),
        }
    }
}

/// Whether `k` is a key that no parameter of `params` has.
pub open spec fn unknown_key(params: Seq<ParameterView>, k: Seq<char>) -> bool {
    forall|i: int| 0 <= i < params.len() ==> (#[trigger] params[i]).key != k
}

/// Whether `k` is the least of the keys of `m` that no parameter has.
pub open spec fn least_unknown(params: Seq<ParameterView>, m: Map<Seq<char>, Seq<char>>, k: Seq<char>) -> bool {
    &&& m.contains_key(k)
    &&& unknown_key(params, k)
    &&& forall|k2: Seq<char>| #[trigger] m.contains_key(k2) && unknown_key(params, k2) ==> !lex_lt(k2, k)
}

/// What checking `provided` against `params` gives: the values with the
/// defaults filled in, or the first problem, in the order of `params`, or
/// else the least key that no parameter has.
pub open spec fn parameters_outcome(params: Seq<ParameterView>, provided: Map<Seq<char>, Seq<char>>) -> Result<
    Map<Seq<char>, Seq<char>>,
    Seq<char>,
> {
    match params_checked(params, provided) {
        Err(e) => Err(e),
        Ok(m) => if exists|k: Seq<char>| #[trigger] m.contains_key(k) && unknown_key(params, k) {
            let k = choose|k: Seq<char>| least_unknown(params, m, k);
            Err("unknown parameter '"@ + k + "'"@)
        } else {
            Ok(m)
        },
    }
}

proof fn lemma_pairs_map_unique(s: Seq<(Seq<char>, Seq<char>)>)
    requires
        keys_unique(s),
    ensures
        forall|k: Seq<char>| #[trigger] pairs_map(s).contains_key(k) <==> exists|i: int| 0 <= i < s.len() && (#[trigger] s[i]).0 == k,
        forall|i: int| 0 <= i < s.len() ==> #[trigger] pairs_map(s)[s[i].0] == s[i].1,
    decreases s.len(),
{
    if s.len() > 0 {
        let t = s.drop_last();
        assert(keys_unique(t)) by {
            assert forall|i: int, j: int| 0 <= i < j < t.len() implies (#[trigger] t[i]).0 != (#[trigger] t[j]).0 by {
                assert(t[i] == s[i] && t[j] == s[j]);
            }
        }
        lemma_pairs_map_unique(t);
        let x = s.last();
        assert(x == s[s.len() - 1]);
        assert(pairs_map(s) == pairs_map(t).insert(x.0, x.1));
        assert forall|k: Seq<char>| #[trigger] pairs_map(s).contains_key(k) <==> exists|i: int| 0 <= i < s.len() && (#[trigger] s[i]).0 == k by {
            if pairs_map(s).contains_key(k) {
                if k == x.0 {
                    assert(s[s.len() - 1].0 == k);
                } else {
                    assert(pairs_map(t).contains_key(k));
                    let i = choose|i: int| 0 <= i < t.len() && (#[trigger] t[i]).0 == k;
                    assert(s[i] == t[i]);
                }
            }
            if exists|i: int| 0 <= i < s.len() && (#[trigger] s[i]).0 == k {
                let i = choose|i: int| 0 <= i < s.len() && (#[trigger] s[i]).0 == k;
                if i < t.len() {
                    assert(s[i] == t[i]);
                    assert(pairs_map(t).contains_key(k));
                }
            }
        }
        assert forall|i: int| 0 <= i < s.len() implies #[trigger] pairs_map(s)[s[i].0] == s[i].1 by {
            if i < t.len() {
                assert(s[i] == t[i]);
                assert(s[i].0 != x.0);
                assert(pairs_map(t)[t[i].0] == t[i].1);
            }
        }
    }
}

/// A problem found among the first `n` parameters is the outcome.
proof fn lemma_problem_stays(s: Seq<ParameterView>, n: int, m: Map<Seq<char>, Seq<char>>, e: Seq<char>)
    requires
        0 <= n <= s.len(),
        params_checked(s.take(n), m) == Err::<Map<Seq<char>, Seq<char>>, Seq<char>>(e),
    ensures
        params_checked(s, m) == Err::<Map<Seq<char>, Seq<char>>, Seq<char>>(e),
    decreases s.len() - n,
{
    if n < s.len() {
        assert(s.take(n + 1).drop_last() =~= s.take(n));
        lemma_problem_stays(s, n + 1, m, e);
    } else {
        assert(s.take(n) =~= s);
    }
}

/// The position of `key` among the pairs, if it is there.
fn key_position(pairs: &Vec<(String, String)>, key: &str) -> (r: Option<usize>)
    ensures
        match r {
            Some(i) => i < pairs@.len() && pairs@[i as int].0@ == key@,
            None => forall|i: int| 0 <= i < pairs@.len() ==> (#[trigger] pairs@[i]).0@ != key@,
        },
{
    let mut i: usize = 0;
    while i < pairs.len()
        invariant
            i <= pairs@.len(),
            forall|j: int| 0 <= j < i ==> (#[trigger] pairs@[j]).0@ != key@,
        decreases pairs.len() - i,
    {
        if str_eq(pairs[i].0.as_str(), key) {
            return Some(i);
        }
        i += 1;
    }
    None
}

/// Whether `value` is among `choices`.
fn among(choices: &Vec<String>, value: &str) -> (r: bool)
    ensures
        r == crate::provider::strings_view(choices@).contains(value@),
{
    let ghost cv = crate::provider::strings_view(choices@);
    let mut i: usize = 0;
    while i < choices.len()
        invariant
            i <= choices@.len(),
            cv == crate::provider::strings_view(choices@),
            forall|j: int| 0 <= j < i ==> cv[j] != value@,
        decreases choices.len() - i,
    {
        if str_eq(choices[i].as_str(), value) {
            assert(cv[i as int] == value@);
            return true;
        }
        i += 1;
    }
    false
}

/// Whether `value` is of `p`'s kind.
fn fits(p: &ActionParameter, value: &str) -> (r: bool)
    ensures
        r == value_fits(p@, value@),
{
    match p.kind {
        ParameterKind::Text => true,
        ParameterKind::Enum => among(&p.choices, value),
        ParameterKind::Boolean => str_eq(value, "true") || str_eq(value, "false"),
        ParameterKind::Number => is_float_text(value),
    }
}

/// The message of a problem with the parameter labelled `label`.
fn problem(label: &str, tail: &str) -> (r: ActionError)
    ensures
        r matches ActionError::Failed(m) && m@ == "parameter '"@ + label@ + tail@,
{
    let head = concat("parameter '", label);
    ActionError::Failed(concat(head.as_str(), tail))
}

/// Checks the parameters `provided` (no key twice) against `params`: the
/// values to run with, defaults filled in, or the problem.
pub fn validate_parameters(params: &Vec<ActionParameter>, provided: Vec<(String, String)>) -> (r: Result<
    Vec<(String, String)>,
    ActionError,
>)
    requires
        keys_unique(pairs_view(provided@)),
    ensures
        match parameters_outcome(parameters_view(params@), pairs_map(pairs_view(provided@))) {
            Ok(m) => r matches Ok(v) && keys_unique(pairs_view(v@)) && pairs_map(pairs_view(v@)) == m,
            Err(e) => r matches Err(ActionError::Failed(x)) && x@ == e,
        },
{
    let ghost pv = parameters_view(params@);
    let ghost start = pairs_map(pairs_view(provided@));
    let mut values = provided;
    let mut i: usize = 0;
    assert(pv.take(0) =~= Seq::<ParameterView>::empty());
    while i < params.len()
        invariant
            i <= params@.len(),
            pv == parameters_view(params@),
            start == pairs_map(pairs_view(provided@)),
            keys_unique(pairs_view(values@)),
            params_checked(pv.take(i as int), start) == Ok::<Map<Seq<char>, Seq<char>>, Seq<char>>(
                pairs_map(pairs_view(values@)),
            ),
        decreases params.len() - i,
    {
        let p = &params[i];
        let ghost before = values@;
        let ghost m = pairs_map(pairs_view(values@));
        proof {
            lemma_pairs_map_unique(pairs_view(values@));
            assert(pv.take(i + 1).drop_last() =~= pv.take(i as int));
            assert(pv.take(i + 1).last() == p@);
            assert(params_checked(pv.take(i + 1), start) == param_step(p@, m));
        }
        let mut at = key_position(&values, p.key.as_str());
        proof {
            match at {
                Some(k) => {
                    assert(pairs_view(values@)[k as int].0 == p.key@);
                    assert(m.contains_key(p.key@));
                },
                None => {
                    assert forall|j: int| 0 <= j < pairs_view(values@).len() implies (
                    #[trigger] pairs_view(values@)[j]).0 != p.key@ by {
                        assert(pairs_view(values@)[j].0 == values@[j].0@);
                    }
                    assert(!m.contains_key(p.key@));
                },
            }
        }
        if at.is_none() {
            if let Some(d) = &p.default_value {
                let ghost pair = (p.key@, d@);
                values.push((copy_string(&p.key), copy_string(d)));
                proof {
                    assert(pairs_view(values@) =~= pairs_view(before).push(pair));
                    assert(pairs_view(values@).drop_last() =~= pairs_view(before));
                    assert forall|a: int, b: int| 0 <= a < b < pairs_view(values@).len() implies (
                    #[trigger] pairs_view(values@)[a]).0 != (#[trigger] pairs_view(values@)[b]).0 by {
                        if b < before.len() {
                            assert(pairs_view(values@)[a] == pairs_view(before)[a]);
                            assert(pairs_view(values@)[b] == pairs_view(before)[b]);
                        } else {
                            assert(pairs_view(values@)[a] == pairs_view(before)[a]);
                            assert(pairs_view(before)[a].0 == before[a].0@);
                        }
                    }
                    lemma_pairs_map_unique(pairs_view(values@));
                }
                at = Some(values.len() - 1);
            }
        }
        let ghost m2 = pairs_map(pairs_view(values@));
        assert(m2 == if !m.contains_key(p@.key) && p@.default_value is Some {
            m.insert(p@.key, p@.default_value->0)
        } else {
            m
        });
        match at {
            None => {
                assert(!m2.contains_key(p@.key));
                if p.required {
                    proof {
                        assert(param_step(p@, m) == Err::<Map<Seq<char>, Seq<char>>, Seq<char>>(
                            "required parameter '"@ + p@.label + "' is missing"@,
                        ));
                        lemma_problem_stays(pv, i + 1, start, "required parameter '"@ + p@.label + "' is missing"@);
                    }
                    let head = concat("required parameter '", p.label.as_str());
                    return Err(ActionError::Failed(concat(head.as_str(), "' is missing")));
                }
            },
            Some(k) => {
                proof {
                    lemma_pairs_map_unique(pairs_view(values@));
                    assert(pairs_view(values@)[k as int] == (values@[k as int].0@, values@[k as int].1@));
                }
                assert(m2.contains_key(p@.key) && m2[p@.key] == values@[k as int].1@);
                let value = values[k].1.as_str();
                if value.as_bytes().len() > 256 {
                    proof {
                        assert(param_step(p@, m) == Err::<Map<Seq<char>, Seq<char>>, Seq<char>>(
                            "parameter '"@ + p@.label + "' is too long"@,
                        ));
                        lemma_problem_stays(pv, i + 1, start, "parameter '"@ + p@.label + "' is too long"@);
                    }
                    return Err(problem(p.label.as_str(), "' is too long"));
                }
                if !fits(p, value) {
                    proof {
                        assert(param_step(p@, m) == Err::<Map<Seq<char>, Seq<char>>, Seq<char>>(
                            "parameter '"@ + p@.label + "' has an invalid value"@,
                        ));
                        lemma_problem_stays(pv, i + 1, start, "parameter '"@ + p@.label + "' has an invalid value"@);
                    }
                    return Err(problem(p.label.as_str(), "' has an invalid value"));
                }
                assert(value_fits(p@, m2[p@.key]));
            },
        }
        assert(param_step(p@, m) == Ok::<Map<Seq<char>, Seq<char>>, Seq<char>>(m2));
        i += 1;
    }
    assert(pv.take(i as int) =~= pv);
    let ghost m = pairs_map(pairs_view(values@));
    proof {
        lemma_pairs_map_unique(pairs_view(values@));
    }
    let mut least: Option<usize> = None;
    let mut k: usize = 0;
    while k < values.len()
        invariant
            k <= values@.len(),
            pv == parameters_view(params@),
            start == pairs_map(pairs_view(provided@)),
            params_checked(pv, start) == Ok::<Map<Seq<char>, Seq<char>>, Seq<char>>(m),
            m == pairs_map(pairs_view(values@)),
            keys_unique(pairs_view(values@)),
            forall|x: Seq<char>| #[trigger] m.contains_key(x) <==> exists|j: int|
                0 <= j < pairs_view(values@).len() && (#[trigger] pairs_view(values@)[j]).0 == x,
            match least {
                Some(l) => l < k && unknown_key(pv, values@[l as int].0@) && forall|j: int|
                    0 <= j < k && unknown_key(pv, #[trigger] values@[j].0@) ==> !lex_lt(
                        values@[j].0@,
                        values@[l as int].0@,
                    ),
                None => forall|j: int| 0 <= j < k ==> !unknown_key(pv, #[trigger] values@[j].0@),
            },
        decreases values.len() - k,
    {
        let key = values[k].0.as_str();
        let mut known = false;
        let mut q: usize = 0;
        while q < params.len()
            invariant
                q <= params@.len(),
                pv == parameters_view(params@),
                known ==> !unknown_key(pv, key@),
                !known ==> forall|j: int| 0 <= j < q ==> (#[trigger] pv[j]).key != key@,
            decreases params.len() - q,
        {
            if str_eq(params[q].key.as_str(), key) {
                assert(pv[q as int].key == key@);
                known = true;
            }
            q += 1;
        }
        if !known {
            let replace = match least {
                None => true,
                Some(l) => lex_less(&chars_of(key), &chars_of(values[l].0.as_str())),
            };
            if replace {
                proof {
                    match least {
                        Some(l) => {
                            assert forall|j: int|
                                0 <= j < k + 1 && unknown_key(pv, #[trigger] values@[j].0@) implies !lex_lt(
                                values@[j].0@,
                                values@[k as int].0@,
                            ) by {
                                if j < k {
                                    if lex_lt(values@[j].0@, values@[k as int].0@) {
                                        lemma_lex_lt_transitive(
                                            values@[j].0@,
                                            values@[k as int].0@,
                                            values@[l as int].0@,
                                        );
                                    }
                                } else {
                                    lemma_lex_lt_irreflexive(values@[k as int].0@);
                                }
                            }
                        },
                        None => {
                            lemma_lex_lt_irreflexive(values@[k as int].0@);
                        },
                    }
                }
                least = Some(k);
            } else {
                proof {
                    let l = least->0;
                    if values@[k as int].0@ != values@[l as int].0@ {
                        lemma_lex_lt_total(values@[k as int].0@, values@[l as int].0@);
                    }
                }
            }
        }
        k += 1;
    }
    match least {
        None => {
            proof {
                assert forall|x: Seq<char>| #[trigger] m.contains_key(x) implies !unknown_key(pv, x) by {
                    let j = choose|j: int| 0 <= j < pairs_view(values@).len() && (#[trigger] pairs_view(values@)[j]).0 == x;
                    assert(pairs_view(values@)[j].0 == values@[j].0@);
                }
            }
            Ok(values)
        },
        Some(l) => {
            let ghost kl = values@[l as int].0@;
            proof {
                assert(pairs_view(values@)[l as int].0 == kl);
                assert(m.contains_key(kl));
                assert forall|x: Seq<char>| #[trigger] m.contains_key(x) && unknown_key(pv, x) implies !lex_lt(x, kl) by {
                    let j = choose|j: int| 0 <= j < pairs_view(values@).len() && (#[trigger] pairs_view(values@)[j]).0 == x;
                    assert(pairs_view(values@)[j].0 == values@[j].0@);
                }
                assert(least_unknown(pv, m, kl));
                let c = choose|x: Seq<char>| least_unknown(pv, m, x);
                if c != kl {
                    lemma_lex_lt_total(c, kl);
                }
            }
            let head = concat("unknown parameter '", values[l].0.as_str());
            Err(ActionError::Failed(concat(head.as_str(), "'")))
        },
    }
}


/// A Boolean parameter takes exactly `true` and `false`: both fit it, and
/// no other value does; a parameter's check then lets either value through
/// when it is given.
pub proof fn boolean_parameters_take_true_and_false(p: ParameterView, v: Seq<char>, m: Map<Seq<char>, Seq<char>>)
    requires
        p.kind == ParameterKind::Boolean,
    ensures
        value_fits(p, "true"@),
        value_fits(p, "false"@),
        value_fits(p, v) ==> v == "true"@ || v == "false"@,
        m.contains_key(p.key) && (m[p.key] == "true"@ || m[p.key] == "false"@) ==> param_step(p, m) == Ok::<
            Map<Seq<char>, Seq<char>>,
            Seq<char>,
        >(m),
{
    reveal_strlit("true");
    reveal_strlit("false");
    assert(vstd::utf8::is_ascii_chars("true"@));
    assert(vstd::utf8::is_ascii_chars("false"@));
    vstd::utf8::is_ascii_chars_encode_utf8("true"@);
    vstd::utf8::is_ascii_chars_encode_utf8("false"@);
}

} // verus!
