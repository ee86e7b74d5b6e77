//! Which database backups to delete after a new one is written: of the
//! files named `lexwisp-*.db`, all but the last few in name order. Listing
//! the directory and deleting the files are the caller's work.
use vstd::prelude::*;

use crate::settings::{lemma_lex_lt_irreflexive, lemma_lex_lt_transitive, lex_less, lex_lt};
use crate::text::{chars_end_with, chars_of, chars_start_with, ends_with};
use vstd::seq_lib::to_multiset_insert;

verus! {

/// How many backups are kept.
pub const KEPT_BACKUPS: usize = 5;

/// Whether a file name is that of a backup: `lexwisp-` first and `.db`
/// last.
pub open spec fn is_backup_name(name: Seq<char>) -> bool {
    "lexwisp-"@.is_prefix_of(name) && ends_with(name, ".db"@)
}

/// Whether `names` are in name order.
pub open spec fn in_name_order(names: Seq<Seq<char>>) -> bool {
    forall|i: int, j: int| 0 <= i < j < names.len() ==> !lex_lt(#[trigger] names[j], #[trigger] names[i])
}

/// The models of a list of names.
pub open spec fn names_view(v: Seq<String>) -> Seq<Seq<char>> {
    v.map_values(|s: String| s@)
}

/// The backups among `names`, in their order.
pub open spec fn backup_names(names: Seq<Seq<char>>) -> Seq<Seq<char>> {
    names.filter(|n: Seq<char>| is_backup_name(n))
}

/// Inserts `name` into `out`, which is in name order, after every name
/// that does not come after it.
fn insert_in_order(out: &mut Vec<String>, name: String)
    requires
        in_name_order(names_view(old(out)@)),
    ensures
        in_name_order(names_view(final(out)@)),
        names_view(final(out)@).to_multiset() == names_view(old(out)@).to_multiset().insert(name@),
{
    let key = chars_of(name.as_str());
    let ghost ov = names_view(out@);
    let mut p: usize = 0;
    while p < out.len() && !lex_less(&key, &chars_of(out[p].as_str()))
        invariant
            p <= out.len(),
            ov == names_view(out@),
            key@ == name@,
            forall|k: int| 0 <= k < p ==> !lex_lt(key@, #[trigger] ov[k]),
        decreases out.len() - p,
    {
        assert(ov[p as int] == out@[p as int]@);
        p += 1;
    }
    proof {
        if p < out.len() {
            assert(ov[p as int] == out@[p as int]@);
            assert(lex_lt(key@, ov[p as int]));
        }
        assert forall|i: int, j: int| 0 <= i < j < ov.len() + 1 implies !lex_lt(
            #[trigger] ov.insert(p as int, name@)[j],
            #[trigger] ov.insert(p as int, name@)[i],
        ) by {
            let s = ov.insert(p as int, name@);
            if j < p {
                assert(s[i] == ov[i] && s[j] == ov[j]);
            } else if j == p {
                assert(s[i] == ov[i]);
            } else if i < p {
                assert(s[i] == ov[i] && s[j] == ov[j - 1]);
            } else if i == p {
                assert(s[j] == ov[j - 1]);
                let a = ov[j - 1];
                let b = ov[p as int];
                if lex_lt(a, key@) {
                    if j - 1 == p {
                        lemma_lex_lt_transitive(key@, b, key@);
                        lemma_lex_lt_irreflexive(key@);
                    } else {
                        lemma_lex_lt_transitive(a, key@, b);
                    }
                }
            } else {
                assert(s[i] == ov[i - 1] && s[j] == ov[j - 1]);
            }
        }
        to_multiset_insert(ov, p as int, name@);
    }
    out.insert(p, name);
    assert(names_view(out@) =~= ov.insert(p as int, name@));
}

/// The backups to delete among the file names `names`: the backups in
/// name order, but for the last `keep` of them.
pub fn backups_to_remove(names: Vec<String>, keep: usize) -> (r: Vec<String>)
    ensures
        exists|o: Seq<Seq<char>>|
            in_name_order(o) && o.to_multiset() == backup_names(names_view(names@)).to_multiset()
                && names_view(r@) == o.take(
                if o.len() > keep {
                    o.len() - keep
                } else {
                    0
                },
            ),
{
    let ghost input = names_view(names@);
    let ghost pred = |n: Seq<char>| is_backup_name(n);
    let prefix = chars_of("lexwisp-");
    let suffix = chars_of(".db");
    let mut sorted: Vec<String> = Vec::new();
    let mut i: usize = 0;
    assert(input.take(0).filter(pred) =~= Seq::<Seq<char>>::empty()) by {
        reveal(Seq::filter);
    }
    assert(names_view(sorted@) =~= Seq::<Seq<char>>::empty());
    while i < names.len()
        invariant
            i <= names@.len(),
            input == names_view(names@),
            pred == (|n: Seq<char>| is_backup_name(n)),
            prefix@ == "lexwisp-"@,
            suffix@ == ".db"@,
            in_name_order(names_view(sorted@)),
            names_view(sorted@).to_multiset() == input.take(i as int).filter(pred).to_multiset(),
        decreases names.len() - i,
    {
        let n = chars_of(names[i].as_str());
        proof {
            assert(input.take(i + 1) =~= input.take(i as int).push(input[i as int]));
            input.take(i as int).lemma_filter_push(input[i as int], pred);
        }
        if chars_start_with(&n, &prefix) && chars_end_with(&n, &suffix) {
            proof {
                vstd::seq_lib::to_multiset_build(input.take(i as int).filter(pred), input[i as int]);
            }
            insert_in_order(&mut sorted, names[i].clone());
        }
        i += 1;
    }
    assert(input.take(i as int) =~= input);
    let ghost o = names_view(sorted@);
    let remove = if sorted.len() > keep {
        sorted.len() - keep
    } else {
        0
    };
    let mut out: Vec<String> = Vec::new();
    let mut k: usize = 0;
    while k < remove
        invariant
            k <= remove,
            remove <= sorted@.len(),
            o == names_view(sorted@),
            names_view(out@) == o.take(k as int),
        decreases remove - k,
    {
        let ghost before = out@;
        out.push(sorted[k].clone());
        proof {
            assert(o.take(k + 1) =~= o.take(k as int).push(o[k as int]));
            assert(names_view(out@) =~= names_view(before).push(sorted@[k as int]@));
        }
        k += 1;
    }
    assert(in_name_order(o) && o.to_multiset() == backup_names(input).to_multiset() && names_view(out@) == o.take(
        remove as int,
    ));
    out
}

} // verus!
