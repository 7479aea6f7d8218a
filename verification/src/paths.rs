//! The output path manager: deduplicated per-type subfolder names and the
//! per-tag artifact file names. These functions work over plain name
//! lists; the caller owns the directory probing and the writes.

use vstd::prelude::*;
use vstd::arithmetic::div_mod::lemma_fundamental_div_mod;
use vstd::set_lib::lemma_len_subset;
use vstd::string::StringExecFns;
use crate::sig::{FormatTag, spec_tag_ext, tag_ext};
use crate::scan::{Match, MatchSpec};

verus! {

broadcast use vstd::string::group_string_axioms;

/// The decimal digit character for `d` in `0 ..= 9`.
pub open spec fn digit_char(d: int) -> char {
    if d == 0 {
        '0'
    } else if d == 1 {
        '1'
    } else if d == 2 {
        '2'
    } else if d == 3 {
        '3'
    } else if d == 4 {
        '4'
    } else if d == 5 {
        '5'
    } else if d == 6 {
        '6'
    } else if d == 7 {
        '7'
    } else if d == 8 {
        '8'
    } else {
        '9'
    }
}

/// The decimal rendering of `n`, most significant digit first.
pub open spec fn dec_str(n: nat) -> Seq<char>
    decreases n,
{
    if n < 10 {
        seq![digit_char(n as int)]
    } else {
        dec_str(n / 10) + seq![digit_char((n % 10) as int)]
    }
}

fn digit_to_str(d: u64) -> (r: &'static str)
    requires
        d < 10,
    ensures
        r@ == seq![digit_char(d as int)],
{
    if d == 0 {
        proof {
            reveal_strlit("0");
        }
        assert("0"@ =~= seq![digit_char(0)]);
        "0"
    } else if d == 1 {
        proof {
            reveal_strlit("1");
        }
        assert("1"@ =~= seq![digit_char(1)]);
        "1"
    } else if d == 2 {
        proof {
            reveal_strlit("2");
        }
        assert("2"@ =~= seq![digit_char(2)]);
        "2"
    } else if d == 3 {
        proof {
            reveal_strlit("3");
        }
        assert("3"@ =~= seq![digit_char(3)]);
        "3"
    } else if d == 4 {
        proof {
            reveal_strlit("4");
        }
        assert("4"@ =~= seq![digit_char(4)]);
        "4"
    } else if d == 5 {
        proof {
            reveal_strlit("5");
        }
        assert("5"@ =~= seq![digit_char(5)]);
        "5"
    } else if d == 6 {
        proof {
            reveal_strlit("6");
        }
        assert("6"@ =~= seq![digit_char(6)]);
        "6"
    } else if d == 7 {
        proof {
            reveal_strlit("7");
        }
        assert("7"@ =~= seq![digit_char(7)]);
        "7"
    } else if d == 8 {
        proof {
            reveal_strlit("8");
        }
        assert("8"@ =~= seq![digit_char(8)]);
        "8"
    } else {
        proof {
            reveal_strlit("9");
        }
        assert("9"@ =~= seq![digit_char(9)]);
        "9"
    }
}

/// Renders `n` in decimal.
pub fn u64_to_dec(n: u64) -> (s: String)
    ensures
        s@ == dec_str(n as nat),
    decreases n,
{
    if n < 10 {
        digit_to_str(n).to_owned()
    } else {
        let mut s = u64_to_dec(n / 10);
        s.append(digit_to_str(n % 10));
        s
    }
}

/// The `c`-th candidate name for a subfolder called `ext`: `ext` itself
/// first, then `ext (1)`, `ext (2)`, and so on.
pub open spec fn candidate_name(ext: Seq<char>, c: nat) -> Seq<char> {
    if c == 0 {
        ext
    } else {
        ext + " ("@ + dec_str(c) + ")"@
    }
}

/// Builds the `c`-th candidate subfolder name.
pub fn subfolder_candidate(ext: &str, c: usize) -> (r: String)
    ensures
        r@ == candidate_name(ext@, c as nat),
{
    if c == 0 {
        ext.to_owned()
    } else {
        let mut s = ext.to_owned();
        s.append(" (");
        let num = u64_to_dec(c as u64);
        s.append(num.as_str());
        s.append(")");
        proof {
            assert(s@ =~= candidate_name(ext@, c as nat));
        }
        s
    }
}

/// Whether some name in `names` reads `s`.
pub open spec fn name_taken(names: Seq<String>, s: Seq<char>) -> bool {
    exists|i: int| 0 <= i < names.len() && names[i]@ == s
}

fn contains_name(names: &Vec<String>, s: &String) -> (b: bool)
    ensures
        b == name_taken(names@, s@),
{
    let mut i: usize = 0;
    while i < names.len()
        invariant
            i <= names@.len(),
            forall|j: int| 0 <= j < i ==> names@[j]@ != s@,
        decreases names@.len() - i,
    {
        if s.eq(&names[i]) {
            return true;
        }
        i += 1;
    }
    false
}

pub proof fn lemma_dec_str_len(n: nat)
    ensures
        dec_str(n).len() >= 1,
        n < 10 <==> dec_str(n).len() == 1,
    decreases n,
{
    if n >= 10 {
        lemma_dec_str_len(n / 10);
    }
}

/// Distinct numbers render to distinct decimal strings.
pub proof fn lemma_dec_str_injective(a: nat, b: nat)
    requires
        dec_str(a) == dec_str(b),
    ensures
        a == b,
    decreases a,
{
    lemma_dec_str_len(a);
    lemma_dec_str_len(b);
    if a < 10 && b < 10 {
        assert(dec_str(a) == seq![digit_char(a as int)]);
        assert(dec_str(b) == seq![digit_char(b as int)]);
        assert(seq![digit_char(a as int)][0] == digit_char(a as int));
        assert(seq![digit_char(b as int)][0] == digit_char(b as int));
        assert(digit_char(a as int) == digit_char(b as int));
    } else if a >= 10 && b >= 10 {
        lemma_dec_str_len(a / 10);
        lemma_dec_str_len(b / 10);
        assert(dec_str(a).last() == digit_char((a % 10) as int));
        assert(dec_str(b).last() == digit_char((b % 10) as int));
        assert(a % 10 == b % 10);
        assert(dec_str(a / 10) =~= dec_str(a).drop_last());
        assert(dec_str(b / 10) =~= dec_str(b).drop_last());
        lemma_dec_str_injective(a / 10, b / 10);
        lemma_fundamental_div_mod(a as int, 10);
        lemma_fundamental_div_mod(b as int, 10);
    }
}

/// Distinct candidate indexes give distinct candidate names.
pub proof fn lemma_candidate_name_injective(ext: Seq<char>, c1: nat, c2: nat)
    requires
        candidate_name(ext, c1) == candidate_name(ext, c2),
    ensures
        c1 == c2,
{
    reveal_strlit(" (");
    reveal_strlit(")");
    lemma_dec_str_len(c1);
    lemma_dec_str_len(c2);
    if c1 == 0 && c2 == 0 {
    } else if c1 == 0 || c2 == 0 {
        assert(candidate_name(ext, c1).len() != candidate_name(ext, c2).len());
    } else {
        let d1 = dec_str(c1);
        let d2 = dec_str(c2);
        assert(" ("@.len() == 2);
        assert(")"@.len() == 1);
        assert(candidate_name(ext, c1).len() == ext.len() + 2 + d1.len() + 1);
        assert(candidate_name(ext, c2).len() == ext.len() + 2 + d2.len() + 1);
        assert(d1.len() == d2.len());
        assert forall|i: int| 0 <= i < d1.len() implies d1[i] == d2[i] by {
            assert(candidate_name(ext, c1)[ext.len() + 2 + i] == d1[i]);
            assert(candidate_name(ext, c2)[ext.len() + 2 + i] == d2[i]);
        }
        assert(d1 =~= d2);
        lemma_dec_str_injective(c1, c2);
    }
}

/// When the first `n` candidate names are all taken, `names` holds at
/// least `n` entries: the candidates are pairwise distinct, so each needs
/// an entry of its own.
pub proof fn lemma_probe_bounded(names: Seq<String>, ext: Seq<char>, n: nat)
    requires
        forall|j: nat| j < n ==> #[trigger] name_taken(names, candidate_name(ext, j)),
    ensures
        n <= names.len(),
{
    broadcast use vstd::set::group_set_axioms;
    broadcast use vstd::seq_lib::seq_to_set_is_finite;

    let cands: Seq<Seq<char>> = Seq::new(n, |j: int| candidate_name(ext, j as nat));
    assert forall|i: int, j: int| 0 <= i < n && 0 <= j < n && i != j implies cands[i]
        != cands[j] by {
        if cands[i] == cands[j] {
            lemma_candidate_name_injective(ext, i as nat, j as nat);
        }
    }
    assert(cands.no_duplicates());
    cands.unique_seq_to_set();
    let nameviews = names.map_values(|s: String| s@);
    assert forall|x: Seq<char>| cands.to_set().contains(x) implies nameviews.to_set().contains(
        x,
    ) by {
        let k = choose|k: int| 0 <= k < cands.len() && cands[k] == x;
        assert(name_taken(names, candidate_name(ext, k as nat)));
        let i = choose|i: int| 0 <= i < names.len() && names[i]@ == x;
        assert(nameviews[i] == x);
    }
    assert(cands.to_set() <= nameviews.to_set());
    lemma_len_subset(cands.to_set(), nameviews.to_set());
    nameviews.lemma_cardinality_of_set();
}

/// Probes `ext`, `ext (1)`, `ext (2)`, ... in order and returns the first
/// candidate that no entry of `existing` reads; repeated extractions into
/// the same root therefore never reuse a taken subfolder name.
pub fn get_unique_subfolder(existing: &Vec<String>, ext: &str) -> (r: String)
    requires
        existing@.len() < usize::MAX,
    ensures
        !name_taken(existing@, r@),
        exists|c: nat|
            r@ == candidate_name(ext@, c) && forall|j: nat|
                j < c ==> #[trigger] name_taken(existing@, candidate_name(ext@, j)),
{
    let mut c: usize = 0;
    while c <= existing.len()
        invariant
            existing@.len() < usize::MAX,
            c <= existing@.len() + 1,
            forall|j: nat| j < c ==> #[trigger] name_taken(existing@, candidate_name(ext@, j)),
        decreases existing@.len() + 1 - c,
    {
        let cand = subfolder_candidate(ext, c);
        if !contains_name(existing, &cand) {
            proof {
                assert(cand@ == candidate_name(ext@, c as nat) && forall|j: nat|
                    j < c as nat ==> #[trigger] name_taken(existing@, candidate_name(ext@, j)));
            }
            return cand;
        }
        c += 1;
    }
    proof {
        lemma_probe_bounded(existing@, ext@, (existing@.len() + 1) as nat);
        assert(false);
    }
    subfolder_candidate(ext, 0)
}

/// The artifact file name for the `k`-th object of a format within one
/// blob: `file_<k>.<ext>`.
pub open spec fn artifact_name_spec(tag: FormatTag, k: nat) -> Seq<char> {
    "file_"@ + dec_str(k) + "."@ + spec_tag_ext(tag)
}

/// Builds the artifact file name `file_<k>.<ext>` for format `tag`.
pub fn artifact_file_name(tag: FormatTag, k: u64) -> (r: String)
    ensures
        r@ == artifact_name_spec(tag, k as nat),
{
    let mut s = "file_".to_owned();
    let num = u64_to_dec(k);
    s.append(num.as_str());
    s.append(".");
    s.append(tag_ext(tag));
    proof {
        assert(s@ =~= artifact_name_spec(tag, k as nat));
    }
    s
}

/// How many of the first `n` matches carry the format `tag`.
pub open spec fn count_tag_before(ms: Seq<MatchSpec>, tag: FormatTag, n: int) -> int
    decreases n,
{
    if n <= 0 {
        0
    } else {
        count_tag_before(ms, tag, n - 1) + if ms[n - 1].tag == tag {
            1int
        } else {
            0int
        }
    }
}

/// The 1-based sequence number of each match among the matches of its own
/// format, in scan order: these are the `<k>` of the artifact file names.
pub fn artifact_sequence(matches: &Vec<Match>) -> (r: Vec<usize>)
    ensures
        r@.len() == matches@.len(),
        forall|i: int|
            0 <= i < matches@.len() ==> r@[i] == count_tag_before(
                matches@.map_values(|m: Match| m@),
                matches@[i].tag,
                i,
            ) + 1,
{
    let ghost ms = matches@.map_values(|m: Match| m@);
    let mut r: Vec<usize> = Vec::new();
    let mut i: usize = 0;
    while i < matches.len()
        invariant
            i <= matches@.len(),
            r@.len() == i,
            ms == matches@.map_values(|m: Match| m@),
            forall|k: int|
                0 <= k < i ==> r@[k] == count_tag_before(ms, matches@[k].tag, k) + 1,
        decreases matches@.len() - i,
    {
        let tag = matches[i].tag;
        let mut count: usize = 0;
        let mut j: usize = 0;
        while j < i
            invariant
                j <= i,
                i < matches@.len(),
                count <= j,
                ms == matches@.map_values(|m: Match| m@),
                tag == matches@[i as int].tag,
                count == count_tag_before(ms, tag, j as int),
            decreases i - j,
        {
            if matches[j].tag == tag {
                count += 1;
            }
            j += 1;
        }
        r.push(count + 1);
        i += 1;
    }
    r
}

} // verus!
