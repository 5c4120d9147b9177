//! Dream-consolidation bookkeeping: whether the monitored mind is asleep,
//! and the counters the watcher keeps while it dreams.

use vstd::prelude::*;
use vstd::string::StringSliceAdditionalSpecFns;
use vstd::utf8::encode_utf8;
use crate::text::{
    char_alnum, chars_vec, is_alnum_char, lower_of, lowercase, split_whitespace_vec,
    split_ws_of, string_from_chars,
};

verus! {

/// A word with every leading character that is not alphanumeric removed.
pub open spec fn trim_front(w: Seq<char>) -> Seq<char>
    decreases w.len(),
{
    if w.len() > 0 && !char_alnum(w[0]) {
        trim_front(w.drop_first())
    } else {
        w
    }
}

/// A word with every trailing character that is not alphanumeric removed.
pub open spec fn trim_back(w: Seq<char>) -> Seq<char>
    decreases w.len(),
{
    if w.len() > 0 && !char_alnum(w.last()) {
        trim_back(w.drop_last())
    } else {
        w
    }
}

/// A word trimmed of non-alphanumeric characters at both ends.
pub open spec fn trim_non_alnum(w: Seq<char>) -> Seq<char> {
    trim_back(trim_front(w))
}

/// The common words never kept as keywords.
pub open spec fn is_stop_word(w: Seq<char>) -> bool {
    ||| w == "cette"@
    ||| w == "comme"@
    ||| w == "quand"@
    ||| w == "alors"@
    ||| w == "aussi"@
    ||| w == "avoir"@
    ||| w == "être"@
    ||| w == "faire"@
}

/// What one word contributes as a keyword candidate: trimmed of
/// non-alphanumeric ends, then lowercased.
pub open spec fn keyword_of(w: Seq<char>) -> Seq<char> {
    lower_of(trim_non_alnum(w))
}

/// Whether a word's candidate is kept: more than 5 and fewer than 20 bytes
/// long, and not a stop word.
pub open spec fn keeps_word(w: Seq<char>) -> bool {
    &&& 5 < encode_utf8(keyword_of(w)).len() < 20
    &&& !is_stop_word(keyword_of(w))
}

/// The keywords kept from a sequence of words, in order.
pub open spec fn keywords_spec(ws: Seq<Seq<char>>) -> Seq<Seq<char>>
    decreases ws.len(),
{
    if ws.len() == 0 {
        Seq::empty()
    } else {
        (if keeps_word(ws[0]) {
            seq![keyword_of(ws[0])]
        } else {
            Seq::empty()
        }) + keywords_spec(ws.drop_first())
    }
}

/// The keyword candidate of one word: both ends trimmed of characters that
/// are not alphanumeric, then the rest lowercased.
fn keyword_for(w: &str) -> (r: String)
    ensures
        r@ == keyword_of(w@),
{
    let cs = chars_vec(w);
    let n = cs.len();
    let mut start: usize = 0;
    proof {
        assert(cs@.skip(0) =~= cs@);
    }
    while start < n && !is_alnum_char(cs[start])
        invariant
            n == cs@.len(),
            start <= n,
            cs@ == w@,
            trim_front(w@) == trim_front(cs@.skip(start as int)),
        decreases n - start,
    {
        proof {
            assert(cs@.skip(start as int)[0] == cs@[start as int]);
            assert(cs@.skip(start as int).drop_first() =~= cs@.skip(start + 1));
        }
        start = start + 1;
    }
    proof {
        if start < n {
            assert(cs@.skip(start as int)[0] == cs@[start as int]);
        }
        assert(trim_front(w@) == cs@.skip(start as int));
        assert(cs@.skip(start as int) =~= cs@.subrange(start as int, n as int));
    }
    let mut end: usize = n;
    proof {
        assert(trim_non_alnum(w@) == trim_back(cs@.subrange(start as int, end as int)));
    }
    while end > start && !is_alnum_char(cs[end - 1])
        invariant
            n == cs@.len(),
            start <= end <= n,
            cs@ == w@,
            trim_non_alnum(w@) == trim_back(cs@.subrange(start as int, end as int)),
        decreases end,
    {
        proof {
            let sub = cs@.subrange(start as int, end as int);
            assert(sub.last() == cs@[end - 1]);
            assert(sub.drop_last() =~= cs@.subrange(start as int, end - 1));
        }
        end = end - 1;
    }
    proof {
        let sub = cs@.subrange(start as int, end as int);
        if end > start {
            assert(sub.last() == cs@[end - 1]);
        }
        assert(trim_non_alnum(w@) == sub);
    }
    let mut subv: Vec<char> = Vec::new();
    let mut j: usize = start;
    proof {
        assert(subv@ =~= cs@.subrange(start as int, start as int));
    }
    while j < end
        invariant
            n == cs@.len(),
            start <= j <= end <= n,
            subv@ == cs@.subrange(start as int, j as int),
        decreases end - j,
    {
        subv.push(cs[j]);
        proof {
            assert(cs@.subrange(start as int, j + 1) =~= cs@.subrange(start as int, j as int).push(
                cs@[j as int],
            ));
        }
        j = j + 1;
    }
    let trimmed = string_from_chars(&subv);
    lowercase(trimmed.as_str())
}

/// Whether the candidate is one of the stop words.
fn stop_word(s: &String) -> (r: bool)
    ensures
        r == is_stop_word(s@),
{
    *s == "cette".to_owned() || *s == "comme".to_owned() || *s == "quand".to_owned() || *s
        == "alors".to_owned() || *s == "aussi".to_owned() || *s == "avoir".to_owned() || *s
        == "être".to_owned() || *s == "faire".to_owned()
}

/// Splits text into words on whitespace and keeps each word's trimmed,
/// lowercased form when it is 6 to 19 bytes long and not a stop word.
pub fn extract_keywords(content: &str) -> (r: Vec<String>)
    ensures
        r@.map_values(|s: String| s@) == keywords_spec(split_ws_of(content@)),
{
    let words = split_whitespace_vec(content);
    let ghost ws = split_ws_of(content@);
    let mut r: Vec<String> = Vec::new();
    let n = words.len();
    let mut i: usize = 0;
    proof {
        assert(ws.skip(0) =~= ws);
        assert(words@.map_values(|w: String| w@).len() == ws.len());
        assert(r@.map_values(|s: String| s@) =~= Seq::<Seq<char>>::empty());
    }
    while i < n
        invariant
            n == words@.len(),
            i <= n,
            ws == split_ws_of(content@),
            words@.map_values(|w: String| w@) == ws,
            ws.len() == n,
            keywords_spec(ws) == r@.map_values(|s: String| s@) + keywords_spec(
                ws.skip(i as int),
            ),
        decreases n - i,
    {
        proof {
            assert(ws[i as int] == words@[i as int]@);
            assert(ws.skip(i as int)[0] == ws[i as int]);
            assert(ws.skip(i as int).drop_first() =~= ws.skip(i + 1));
        }
        let ghost r_pre = r@;
        let clean = keyword_for(words[i].as_str());
        let bl = clean.as_str().as_bytes().len();
        proof {
            assert(clean@ == keyword_of(ws[i as int]));
            assert(bl == encode_utf8(clean@).len());
        }
        if 5 < bl && bl < 20 && !stop_word(&clean) {
            proof {
                assert(keeps_word(ws[i as int]));
            }
            r.push(clean);
        } else {
            proof {
                assert(!keeps_word(ws[i as int]));
            }
        }
        proof {
            assert(r@.map_values(|s: String| s@) =~= r_pre.map_values(|s: String| s@) + (
            if keeps_word(ws[i as int]) {
                seq![keyword_of(ws[i as int])]
            } else {
                Seq::<Seq<char>>::empty()
            }));
        }
        i = i + 1;
    }
    proof {
        assert(ws.skip(n as int) =~= Seq::<Seq<char>>::empty());
    }
    r
}

/// The watcher's state: whether consolidation is running and how much it
/// has produced.
#[derive(Debug, Clone, Copy, PartialEq, Eq, Structural)]
pub struct DreamState {
    pub sleeping: bool,
    pub dreams_count: u64,
    pub connections_found: u64,
}

/// What one watcher tick observed about the sleep state.
#[derive(Debug, Clone, Copy, PartialEq, Eq, Structural)]
pub enum SleepTransition {
    FellAsleep,
    WokeUp,
    NoChange,
}

/// The mind counts as sleeping exactly when both vitals read zero: no
/// synapse connections and no mitochondrial efficiency.
pub fn flow_asleep(synapse_connections: u64, mito_efficiency: u64) -> (r: bool)
    ensures
        r == (synapse_connections == 0 && mito_efficiency == 0),
{
    synapse_connections == 0 && mito_efficiency == 0
}

impl DreamState {
    /// Awake, with nothing dreamed yet.
    pub fn new() -> (r: DreamState)
        ensures
            !r.sleeping,
            r.dreams_count == 0,
            r.connections_found == 0,
    {
        DreamState { sleeping: false, dreams_count: 0, connections_found: 0 }
    }

    /// Folds one observation of the sleep state into the watcher: reports a
    /// transition exactly when the observation differs from the held state.
    pub fn watcher_step(&mut self, asleep: bool) -> (t: SleepTransition)
        ensures
            final(self).sleeping == asleep,
            final(self).dreams_count == old(self).dreams_count,
            final(self).connections_found == old(self).connections_found,
            t == (if asleep && !old(self).sleeping {
                SleepTransition::FellAsleep
            } else if !asleep && old(self).sleeping {
                SleepTransition::WokeUp
            } else {
                SleepTransition::NoChange
            }),
    {
        let was = self.sleeping;
        self.sleeping = asleep;
        if asleep && !was {
            SleepTransition::FellAsleep
        } else if !asleep && was {
            SleepTransition::WokeUp
        } else {
            SleepTransition::NoChange
        }
    }

    /// Counts one consolidation cycle that produced the given number of
    /// fragments (each counter saturating at its maximum).
    pub fn note_consolidation(&mut self, fragments: u64)
        ensures
            final(self).sleeping == old(self).sleeping,
            final(self).dreams_count == if old(self).dreams_count < u64::MAX {
                old(self).dreams_count + 1
            } else {
                u64::MAX as int
            },
            final(self).connections_found == if old(self).connections_found + fragments
                <= u64::MAX {
                old(self).connections_found + fragments
            } else {
                u64::MAX as int
            },
    {
        if self.dreams_count < u64::MAX {
            self.dreams_count = self.dreams_count + 1;
        }
        if self.connections_found <= u64::MAX - fragments {
            self.connections_found = self.connections_found + fragments;
        } else {
            self.connections_found = u64::MAX;
        }
    }
}

} // verus!
