//! Text helpers: case folding behind a named result, and a verified
//! byte-level substring search.

use vstd::prelude::*;

verus! {

/// What Unicode lowercasing returns for the given characters: a function
/// of the characters alone.
pub uninterp spec fn lower_of(s: Seq<char>) -> Seq<char>;

/// Relies on `str::to_lowercase`: the result depends on the characters
/// alone.
#[verifier::external_body]
pub fn lowercase(s: &str) -> (r: String)
    ensures
        r@ == lower_of(s@),
{
    s.to_lowercase()
}

/// Whether a character counts as alphanumeric under Unicode rules: a
/// function of the character alone.
pub uninterp spec fn char_alnum(c: char) -> bool;

/// Relies on `char::is_alphanumeric`: the classification depends on the
/// character alone.
#[verifier::external_body]
pub fn is_alnum_char(c: char) -> (r: bool)
    ensures
        r == char_alnum(c),
{
    c.is_alphanumeric()
}

/// The words a string splits into on Unicode whitespace: a function of the
/// characters alone.
pub uninterp spec fn split_ws_of(s: Seq<char>) -> Seq<Seq<char>>;

/// Relies on `str::split_whitespace`: the split depends on the characters
/// alone.
#[verifier::external_body]
pub fn split_whitespace_vec(s: &str) -> (r: Vec<String>)
    ensures
        r@.map_values(|w: String| w@) == split_ws_of(s@),
{
    s.split_whitespace().map(|w| w.to_owned()).collect()
}

/// Relies on `str::chars`: the characters of the string, in order.
#[verifier::external_body]
pub fn chars_vec(s: &str) -> (r: Vec<char>)
    ensures
        r@ == s@,
{
    s.chars().collect()
}

/// Relies on `String`'s `FromIterator<char>`: the string holding exactly
/// the given characters, in order.
#[verifier::external_body]
pub fn string_from_chars(v: &Vec<char>) -> (r: String)
    ensures
        r@ == v@,
{
    v.iter().collect()
}

/// The needle occurs in the haystack starting at position `i`.
pub open spec fn has_sub_at(h: Seq<u8>, n: Seq<u8>, i: int) -> bool {
    0 <= i && i + n.len() <= h.len() && h.subrange(i, i + n.len()) == n
}

/// The needle occurs somewhere in the haystack.
pub open spec fn contains_sub(h: Seq<u8>, n: Seq<u8>) -> bool {
    exists|i: int| has_sub_at(h, n, i)
}

/// Byte-level substring search. Because UTF-8 is self-synchronizing, on
/// UTF-8 text this agrees with character-level containment.
pub fn contains_bytes(h: &[u8], n: &[u8]) -> (r: bool)
    ensures
        r == contains_sub(h@, n@),
{
    let hl = h.len();
    let nl = n.len();
    if nl > hl {
        proof {
            assert forall|i: int| !has_sub_at(h@, n@, i) by {}
        }
        return false;
    }
    if nl == 0 {
        proof {
            assert(h@.subrange(0, 0) =~= n@);
            assert(has_sub_at(h@, n@, 0));
        }
        return true;
    }
    let mut i: usize = 0;
    while i <= hl - nl
        invariant
            hl == h@.len(),
            nl == n@.len(),
            1 <= nl <= hl,
            i <= hl - nl + 1,
            forall|k: int| 0 <= k < i ==> !has_sub_at(h@, n@, k),
        decreases hl - i,
    {
        let mut j: usize = 0;
        let mut matched = true;
        while j < nl
            invariant
                hl == h@.len(),
                nl == n@.len(),
                i + nl <= hl,
                j <= nl,
                matched ==> forall|t: int| 0 <= t < j ==> h@[i + t] == n@[t],
                !matched ==> !has_sub_at(h@, n@, i as int),
            decreases nl - j,
        {
            if h[i + j] != n[j] {
                matched = false;
                proof {
                    assert(!has_sub_at(h@, n@, i as int)) by {
                        if has_sub_at(h@, n@, i as int) {
                            assert(h@.subrange(i as int, i + nl)[j as int] == h@[i + j]);
                        }
                    }
                }
                j = nl;
            } else {
                j = j + 1;
            }
        }
        if matched {
            proof {
                assert(h@.subrange(i as int, i + nl) =~= n@);
                assert(has_sub_at(h@, n@, i as int));
            }
            return true;
        }
        i = i + 1;
    }
    proof {
        assert forall|k: int| !has_sub_at(h@, n@, k) by {
            if 0 <= k <= hl - nl {
                assert(!has_sub_at(h@, n@, k));
            }
        }
    }
    false
}

/// The prefix of a text before its first line feed (the whole text when
/// there is none).
pub open spec fn first_line_of(s: Seq<char>) -> Seq<char>
    decreases s.len(),
{
    if s.len() == 0 {
        s
    } else if s[0] == '\n' {
        Seq::empty()
    } else {
        seq![s[0]] + first_line_of(s.drop_first())
    }
}

/// If no line feed stands before position `i`, and `i` is the end or a line
/// feed, the first line is exactly the prefix of length `i`.
pub proof fn lemma_first_line_at(s: Seq<char>, i: int)
    requires
        0 <= i <= s.len(),
        forall|j: int| 0 <= j < i ==> s[j] != '\n',
        i < s.len() ==> s[i] == '\n',
    ensures
        first_line_of(s) == s.take(i),
    decreases i,
{
    if s.len() == 0 {
        assert(s.take(0) =~= s);
    } else if i == 0 {
        assert(s.take(0) =~= Seq::<char>::empty());
    } else {
        assert(forall|j: int| 0 <= j < s.len() - 1 ==> s.drop_first()[j] == s[j + 1]);
        lemma_first_line_at(s.drop_first(), i - 1);
        assert(seq![s[0]] + s.drop_first().take(i - 1) =~= s.take(i));
    }
}

/// The request target of an HTTP request: the second whitespace-separated
/// token of the first line, or `/` when the line has fewer than two.
pub open spec fn request_target_spec(s: Seq<char>) -> Seq<char> {
    let ws = split_ws_of(first_line_of(s));
    if ws.len() >= 2 {
        ws[1]
    } else {
        "/"@
    }
}

/// Extracts the request target from a raw HTTP request.
pub fn request_target(request: &str) -> (r: String)
    ensures
        r@ == request_target_spec(request@),
{
    let cs = chars_vec(request);
    let n = cs.len();
    let mut line: Vec<char> = Vec::new();
    let mut i: usize = 0;
    proof {
        assert(line@ =~= cs@.take(0));
    }
    while i < n && cs[i] != '\n'
        invariant
            n == cs@.len(),
            i <= n,
            cs@ == request@,
            line@ == cs@.take(i as int),
            forall|j: int| 0 <= j < i ==> cs@[j] != '\n',
        decreases n - i,
    {
        line.push(cs[i]);
        proof {
            assert(cs@.take(i + 1) =~= cs@.take(i as int).push(cs@[i as int]));
        }
        i = i + 1;
    }
    proof {
        lemma_first_line_at(request@, i as int);
    }
    let line_str = string_from_chars(&line);
    let words = split_whitespace_vec(line_str.as_str());
    if words.len() >= 2 {
        proof {
            assert(words@.map_values(|w: String| w@)[1] == words@[1]@);
        }
        words[1].as_str().to_owned()
    } else {
        "/".to_owned()
    }
}

} // verus!
