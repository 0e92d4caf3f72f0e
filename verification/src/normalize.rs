use vstd::prelude::*;
use crate::text::{from_chars, to_chars};

verus! {

/// The pattern stands in the text at position `i`.
pub open spec fn occurs_at(text: Seq<char>, pattern: Seq<char>, i: int) -> bool {
    &&& 0 <= i
    &&& i + pattern.len() <= text.len()
    &&& forall|k: int| 0 <= k < pattern.len() ==> text[i + k] == #[trigger] pattern[k]
}

/// The text without the pattern: its occurrences are taken out from left to
/// right, each one starting after the end of the one before. An empty
/// pattern takes nothing out.
pub open spec fn without(text: Seq<char>, pattern: Seq<char>) -> Seq<char>
    decreases text.len(),
{
    if text.len() == 0 || pattern.len() == 0 {
        text
    } else if occurs_at(text, pattern, 0) {
        without(text.skip(pattern.len() as int), pattern)
    } else {
        seq![text[0]] + without(text.skip(1), pattern)
    }
}

/// A raw token brought to the form that is validated: without the scheme,
/// without the two host prefixes, and then without any slash that is left.
pub open spec fn normalized(raw: Seq<char>) -> Seq<char> {
    without(
        without(without(without(raw, "https://"@), "youtube.com/watchv?="@), "youtu.be/"@),
        "/"@,
    )
}

/// Whether the pattern stands in the text at position `i`.
pub fn matches_at(text: &[char], pattern: &[char], i: usize) -> (found: bool)
    requires
        i <= text@.len(),
    ensures
        found == occurs_at(text@, pattern@, i as int),
{
    let length: usize = text.len();
    if pattern.len() > length - i {
        return false;
    }
    let mut k: usize = 0;
    while k < pattern.len()
        invariant
            k <= pattern@.len(),
            i + pattern@.len() <= text@.len() == length,
            forall|j: int| 0 <= j < k ==> text@[i + j] == #[trigger] pattern@[j],
        decreases pattern@.len() - k,
    {
        if text[i + k] != pattern[k] {
            return false;
        }
        k = k + 1;
    }
    true
}

/// The suffix of a text from `i` on begins with the pattern exactly where
/// the pattern stands in the text at `i`.
proof fn lemma_occurs_in_suffix(text: Seq<char>, pattern: Seq<char>, i: int)
    requires
        0 <= i <= text.len(),
    ensures
        occurs_at(text.skip(i), pattern, 0) == occurs_at(text, pattern, i),
{
    if occurs_at(text, pattern, i) {
        assert forall|k: int| 0 <= k < pattern.len() implies text.skip(i)[0 + k]
            == #[trigger] pattern[k] by {
            assert(text.skip(i)[k] == text[i + k]);
        }
    }
    if occurs_at(text.skip(i), pattern, 0) {
        assert forall|k: int| 0 <= k < pattern.len() implies text[i + k] == #[trigger] pattern[k] by {
            assert(text.skip(i)[0 + k] == text[i + k]);
        }
    }
}

/// Takes every occurrence of the pattern out of the text.
pub fn remove_all(text: &[char], pattern: &[char]) -> (rest: Vec<char>)
    ensures
        rest@ == without(text@, pattern@),
{
    let mut rest: Vec<char> = Vec::new();
    let mut i: usize = 0;
    assert(text@.skip(0) =~= text@);
    while i < text.len()
        invariant
            i <= text@.len(),
            rest@ + without(text@.skip(i as int), pattern@) =~= without(text@, pattern@),
        decreases text@.len() - i,
    {
        let ghost tail = text@.skip(i as int);
        proof {
            lemma_occurs_in_suffix(text@, pattern@, i as int);
        }
        if pattern.len() > 0 && matches_at(text, pattern, i) {
            assert(tail.skip(pattern@.len() as int) =~= text@.skip(i + pattern@.len()));
            i = i + pattern.len();
        } else {
            assert(tail.skip(1) =~= text@.skip(i + 1));
            proof {
                if pattern@.len() == 0 {
                    lemma_without_nothing(tail.skip(1));
                    assert(tail =~= seq![tail[0]] + tail.skip(1));
                }
            }
            rest.push(text[i]);
            i = i + 1;
        }
    }
    assert(without(text@.skip(i as int), pattern@) =~= Seq::<char>::empty());
    rest
}

/// Taking the empty pattern out of a text leaves the text as it is.
proof fn lemma_without_nothing(text: Seq<char>)
    ensures
        without(text, Seq::<char>::empty()) == text,
{
}

/// Brings a raw token to the form that is validated.
pub fn normalize(raw: &str) -> (token: String)
    ensures
        token@ == normalized(raw@),
{
    let chars: Vec<char> = to_chars(raw);
    let scheme: Vec<char> = to_chars("https://");
    let long_host: Vec<char> = to_chars("youtube.com/watchv?=");
    let short_host: Vec<char> = to_chars("youtu.be/");
    let slash: Vec<char> = to_chars("/");
    let chars = remove_all(chars.as_slice(), scheme.as_slice());
    let chars = remove_all(chars.as_slice(), long_host.as_slice());
    let chars = remove_all(chars.as_slice(), short_host.as_slice());
    let chars = remove_all(chars.as_slice(), slash.as_slice());
    from_chars(chars.as_slice())
}

} // verus!
