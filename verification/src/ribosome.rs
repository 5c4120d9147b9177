//! Knowledge synthesis: a fixed table of concept/answer pairs, and a lookup
//! that answers with the first concept found in the lowercased input.

use vstd::prelude::*;
use vstd::string::StringSliceAdditionalSpecFns;
use vstd::utf8::encode_utf8;
use crate::text::{contains_bytes, contains_sub, lower_of, lowercase};

verus! {

/// The models of the knowledge table: each entry as (concept characters,
/// answer characters).
pub open spec fn knowledge_view(s: Seq<(String, String)>) -> Seq<(Seq<char>, Seq<char>)> {
    s.map_values(|e: (String, String)| (e.0@, e.1@))
}

/// Index of the first entry whose concept occurs in the haystack bytes, or
/// -1.
pub open spec fn synth_find(m: Seq<(Seq<char>, Seq<char>)>, hay: Seq<u8>) -> int
    decreases m.len(),
{
    if m.len() == 0 {
        -1
    } else if contains_sub(hay, encode_utf8(m[0].0)) {
        0
    } else {
        let i = synth_find(m.drop_first(), hay);
        if i == -1 {
            -1
        } else {
            i + 1
        }
    }
}

pub proof fn lemma_synth_find(m: Seq<(Seq<char>, Seq<char>)>, hay: Seq<u8>)
    ensures
        -1 <= synth_find(m, hay) < m.len(),
        synth_find(m, hay) >= 0 ==> contains_sub(hay, encode_utf8(m[synth_find(m, hay)].0)),
        synth_find(m, hay) == -1 <==> (forall|i: int|
            0 <= i < m.len() ==> !contains_sub(hay, encode_utf8(m[i].0))),
        forall|j: int| 0 <= j < synth_find(m, hay) ==> !contains_sub(hay, encode_utf8(m[j].0)),
    decreases m.len(),
{
    if m.len() == 0 {
    } else if contains_sub(hay, encode_utf8(m[0].0)) {
    } else {
        lemma_synth_find(m.drop_first(), hay);
        assert(forall|j: int| 0 < j < m.len() ==> m[j] == m.drop_first()[j - 1]);
        if synth_find(m, hay) == -1 {
            assert forall|i: int| 0 <= i < m.len() implies !contains_sub(
                hay,
                encode_utf8(m[i].0),
            ) by {
                if i > 0 {
                    assert(m.drop_first()[i - 1] == m[i]);
                }
            }
        }
    }
}

/// If `i` is the first matching index, it is what `synth_find` returns.
pub proof fn lemma_synth_find_first(m: Seq<(Seq<char>, Seq<char>)>, hay: Seq<u8>, i: int)
    requires
        0 <= i < m.len(),
        contains_sub(hay, encode_utf8(m[i].0)),
        forall|j: int| 0 <= j < i ==> !contains_sub(hay, encode_utf8(m[j].0)),
    ensures
        synth_find(m, hay) == i,
    decreases m.len(),
{
    if i == 0 {
    } else {
        assert(forall|j: int| 0 <= j < m.len() - 1 ==> m.drop_first()[j] == m[j + 1]);
        lemma_synth_find_first(m.drop_first(), hay, i - 1);
    }
}

/// The knowledge table.
pub struct Knowledge {
    entries: Vec<(String, String)>,
}

impl View for Knowledge {
    type V = Seq<(Seq<char>, Seq<char>)>;

    closed spec fn view(&self) -> Seq<(Seq<char>, Seq<char>)> {
        knowledge_view(self.entries@)
    }
}

/// The built-in knowledge table, in insertion order.
pub fn init() -> (k: Knowledge)
    ensures
        k@ == seq![
            ("network"@, "same pattern everywhere"@),
            ("learning"@, "universal adaptation"@),
            ("entropy"@, "info = disorder = life"@),
            ("emergence"@, "whole > sum of parts"@),
        ],
{
    let mut entries: Vec<(String, String)> = Vec::new();
    entries.push(("network".to_owned(), "same pattern everywhere".to_owned()));
    entries.push(("learning".to_owned(), "universal adaptation".to_owned()));
    entries.push(("entropy".to_owned(), "info = disorder = life".to_owned()));
    entries.push(("emergence".to_owned(), "whole > sum of parts".to_owned()));
    let k = Knowledge { entries };
    assert(k@ =~= seq![
        ("network"@, "same pattern everywhere"@),
        ("learning"@, "universal adaptation"@),
        ("entropy"@, "info = disorder = life"@),
        ("emergence"@, "whole > sum of parts"@),
    ]);
    k
}

/// Answers with the value of the first table entry whose concept occurs in
/// the lowercased input; absence when no concept occurs.
pub fn synthesize(k: &Knowledge, input: &str) -> (r: Option<String>)
    ensures
        match r {
            Some(v) => ({
                let i = synth_find(k@, encode_utf8(lower_of(input@)));
                i >= 0 && v@ == k@[i].1
            }),
            None => synth_find(k@, encode_utf8(lower_of(input@))) == -1,
        },
{
    let input_lower = lowercase(input);
    let hay = input_lower.as_str().as_bytes();
    let ghost hayg = encode_utf8(lower_of(input@));
    assert(hay@ == hayg);
    let n = k.entries.len();
    let mut i: usize = 0;
    while i < n
        invariant
            n == k.entries@.len(),
            k@ == knowledge_view(k.entries@),
            k@.len() == n,
            i <= n,
            hay@ == hayg,
            hayg == encode_utf8(lower_of(input@)),
            forall|j: int| 0 <= j < i ==> !contains_sub(hayg, encode_utf8(k@[j].0)),
        decreases n - i,
    {
        proof {
            assert(k@[i as int] == (k.entries@[i as int].0@, k.entries@[i as int].1@));
        }
        let entry = &k.entries[i];
        let nb = entry.0.as_str().as_bytes();
        proof {
            assert(nb@ == encode_utf8(k@[i as int].0));
        }
        if contains_bytes(hay, nb) {
            proof {
                lemma_synth_find_first(k@, hayg, i as int);
                assert(synth_find(k@, hayg) == i as int);
                assert(synth_find(k@, encode_utf8(lower_of(input@))) == i as int);
                assert(entry.1@ == k@[i as int].1);
            }
            return Some(entry.1.as_str().to_owned());
        }
        i = i + 1;
    }
    proof {
        lemma_synth_find(k@, hayg);
    }
    None
}

} // verus!
