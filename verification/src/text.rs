use vstd::prelude::*;

verus! {

/// The characters of a string, in order.
pub fn to_chars(text: &str) -> (chars: Vec<char>)
    ensures
        chars@ == text@,
{
    let mut chars: Vec<char> = Vec::new();
    for c in it: text.chars()
        invariant
            it.seq() == text@,
            chars@.len() == it.index(),
            forall|j: int| 0 <= j < chars@.len() ==> chars@[j] == it.seq()[j],
    {
        chars.push(c);
    }
    assert(chars@ =~= text@);
    chars
}

/// Calls `String::push` of the standard library, of which Verus knows
/// nothing. The contract says what its documentation says: the character is
/// appended to the end of the string, and the rest of the string stays.
#[verifier::external_body]
fn push_char(text: &mut String, c: char)
    ensures
        final(text)@ == old(text)@.push(c),
{
    text.push(c);
}

/// The string that holds the given characters, in order.
pub fn from_chars(chars: &[char]) -> (text: String)
    ensures
        text@ == chars@,
{
    let mut text: String = String::new();
    let mut i: usize = 0;
    while i < chars.len()
        invariant
            i <= chars@.len(),
            text@ =~= chars@.take(i as int),
        decreases chars@.len() - i,
    {
        push_char(&mut text, chars[i]);
        i = i + 1;
    }
    assert(chars@.take(i as int) =~= chars@);
    text
}

/// The contents of a list of strings.
pub open spec fn texts(strings: Seq<String>) -> Seq<Seq<char>> {
    Seq::new(strings.len(), |k: int| strings[k]@)
}

/// The character that stands for a decimal digit.
pub open spec fn digit(d: nat) -> char
    recommends
        d < 10,
{
    if d == 0 {
        '0'
    } else if d == 1 {
        '1'
    } else if d == 2 {
        '2'
    } else if d == 3 {
        '3'
    } else if d == 4 {
        '4'
    } else if d == 5 {
        '5'
    } else if d == 6 {
        '6'
    } else if d == 7 {
        '7'
    } else if d == 8 {
        '8'
    } else {
        '9'
    }
}

/// A number written in decimal digits, without leading zeros.
pub open spec fn decimal(n: nat) -> Seq<char>
    decreases n,
{
    if n < 10 {
        seq![digit(n)]
    } else {
        decimal(n / 10).push(digit(n % 10))
    }
}

/// The fields of the first `n` characters of a text: the stretches between
/// one separator and the next. A text without a separator is one field, and
/// so is the empty text; a separator at the end is followed by an empty
/// field.
pub open spec fn fields(text: Seq<char>, separator: char, n: nat) -> Seq<Seq<char>>
    recommends
        n <= text.len(),
    decreases n,
{
    if n == 0 {
        seq![Seq::<char>::empty()]
    } else {
        let before = fields(text, separator, (n - 1) as nat);
        if text[n - 1] == separator {
            before.push(Seq::<char>::empty())
        } else {
            before.drop_last().push(before.last().push(text[n - 1]))
        }
    }
}

/// The lines joined into one text, with a line feed between each two.
pub open spec fn joined_lines(lines: Seq<Seq<char>>) -> Seq<char>
    decreases lines.len(),
{
    if lines.len() == 0 {
        Seq::empty()
    } else if lines.len() == 1 {
        lines[0]
    } else {
        joined_lines(lines.drop_last()) + seq!['\n'] + lines.last()
    }
}

/// An answer counts as a yes where it begins with `y`, small or capital.
pub open spec fn affirmative(answer: Seq<char>) -> bool {
    answer.len() > 0 && (answer[0] == 'y' || answer[0] == 'Y')
}

fn digit_char(d: u64) -> (c: char)
    requires
        d < 10,
    ensures
        c == digit(d as nat),
{
    if d == 0 {
        '0'
    } else if d == 1 {
        '1'
    } else if d == 2 {
        '2'
    } else if d == 3 {
        '3'
    } else if d == 4 {
        '4'
    } else if d == 5 {
        '5'
    } else if d == 6 {
        '6'
    } else if d == 7 {
        '7'
    } else if d == 8 {
        '8'
    } else {
        '9'
    }
}

fn push_decimal(out: &mut Vec<char>, n: u64)
    ensures
        final(out)@ == old(out)@ + decimal(n as nat),
    decreases n,
{
    if n >= 10 {
        push_decimal(out, n / 10);
    }
    out.push(digit_char(n % 10));
    assert(final(out)@ =~= old(out)@ + decimal(n as nat));
}

/// Writes a number in decimal digits.
pub fn decimal_string(n: u64) -> (text: String)
    ensures
        text@ == decimal(n as nat),
{
    let mut digits: Vec<char> = Vec::new();
    push_decimal(&mut digits, n);
    assert(digits@ =~= decimal(n as nat));
    from_chars(digits.as_slice())
}

/// Splits a text into its fields at every separator.
pub fn split_fields(text: &str, separator: char) -> (pieces: Vec<String>)
    ensures
        texts(pieces@) == fields(text@, separator, text@.len()),
{
    let chars: Vec<char> = to_chars(text);
    let mut pieces: Vec<String> = Vec::new();
    let mut current: Vec<char> = Vec::new();
    let mut i: usize = 0;
    while i < chars.len()
        invariant
            i <= chars@.len(),
            chars@ == text@,
            texts(pieces@).push(current@) =~= fields(text@, separator, i as nat),
        decreases chars@.len() - i,
    {
        let ghost before = fields(text@, separator, i as nat);
        assert(before.last() == current@);
        assert(before.drop_last() =~= texts(pieces@));
        if chars[i] == separator {
            let piece: String = from_chars(current.as_slice());
            pieces.push(piece);
            current = Vec::new();
            assert(texts(pieces@) =~= before);
        } else {
            current.push(chars[i]);
        }
        i = i + 1;
    }
    let ghost all = fields(text@, separator, text@.len());
    let piece: String = from_chars(current.as_slice());
    pieces.push(piece);
    assert(texts(pieces@) =~= all);
    pieces
}

/// Joins the lines into one text, with a line feed between each two.
pub fn join_lines(lines: &Vec<String>) -> (text: String)
    ensures
        text@ == joined_lines(texts(lines@)),
{
    let ghost all = texts(lines@);
    let mut text: String = String::new();
    let mut k: usize = 0;
    assert(all.take(0) =~= Seq::empty());
    while k < lines.len()
        invariant
            k <= lines@.len(),
            all == texts(lines@),
            text@ =~= joined_lines(all.take(k as int)),
        decreases lines@.len() - k,
    {
        proof {
            assert(all.take(k + 1).drop_last() =~= all.take(k as int));
            assert(all.take(k + 1).last() == lines@[k as int]@);
            if k == 0 {
                assert(all.take(1)[0] == lines@[0]@);
            }
        }
        if k > 0 {
            push_char(&mut text, '\n');
        }
        text.append(lines[k].as_str());
        k = k + 1;
    }
    assert(all.take(k as int) =~= all);
    text
}

/// Whether an answer counts as a yes.
pub fn is_affirmative(answer: &str) -> (yes: bool)
    ensures
        yes == affirmative(answer@),
{
    if answer.unicode_len() == 0 {
        return false;
    }
    let first: char = answer.get_char(0);
    first == 'y' || first == 'Y'
}

} // verus!
