//! Per-identifier planning: the remote URL and the local destination path
//! derived from an identifier, and the proof that distinct identifiers never
//! share a destination.

use vstd::prelude::*;
use crate::numerals::{dec_rep, format_usize, lemma_dec_rep_value, lemma_dec_rep_injective};

verus! {

/// The URL an identifier is fetched from:
/// `https://gutenberg.org/cache/epub/<i>/pg<i>.txt`.
pub open spec fn url_spec(i: nat) -> Seq<char> {
    "https://gutenberg.org/cache/epub/"@ + dec_rep(i) + "/pg"@ + dec_rep(i) + ".txt"@
}

/// The destination path an identifier is written to: `<folder>/pg<i>.txt`.
pub open spec fn dest_spec(folder: Seq<char>, i: nat) -> Seq<char> {
    folder + "/pg"@ + dec_rep(i) + ".txt"@
}

/// Builds the request URL for identifier `i`.
pub fn url_for(i: usize) -> (r: String)
    ensures
        r@ == url_spec(i as nat),
{
    let num = format_usize(i);
    let mut s = String::from_str("https://gutenberg.org/cache/epub/");
    s.append(num.as_str());
    s.append("/pg");
    s.append(num.as_str());
    s.append(".txt");
    proof {
        assert(s@ =~= url_spec(i as nat));
    }
    s
}

/// Builds the destination path for identifier `i` inside `folder`.
pub fn dest_for(folder: &str, i: usize) -> (r: String)
    ensures
        r@ == dest_spec(folder@, i as nat),
{
    let mut s = String::from_str(folder);
    s.append("/pg");
    s.append(format_usize(i).as_str());
    s.append(".txt");
    proof {
        assert(s@ =~= dest_spec(folder@, i as nat));
    }
    s
}

/// Distinct identifiers are written to distinct destination paths inside the
/// same folder, so no two downloads of one run ever contend for, or
/// overwrite, the same file.
pub proof fn lemma_dest_distinct(folder: Seq<char>, i: nat, j: nat)
    requires
        i != j,
    ensures
        dest_spec(folder, i) != dest_spec(folder, j),
{
    let a = folder + "/pg"@;
    let x = dec_rep(i);
    let y = dec_rep(j);
    lemma_dec_rep_value(i);
    lemma_dec_rep_value(j);
    if x == y {
        lemma_dec_rep_injective(i, j);
    }
    if x.len() != y.len() {
        assert(dest_spec(folder, i).len() != dest_spec(folder, j).len());
    } else {
        assert(exists|k: int| 0 <= k < x.len() && x[k] != y[k]) by {
            if forall|k: int| 0 <= k < x.len() ==> x[k] == y[k] {
                assert(x =~= y);
            }
        }
        let k = choose|k: int| 0 <= k < x.len() && x[k] != y[k];
        assert(dest_spec(folder, i)[a.len() + k] == x[k]);
        assert(dest_spec(folder, j)[a.len() + k] == y[k]);
    }
}

} // verus!
