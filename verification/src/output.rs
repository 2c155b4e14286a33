//! From what a solution printed to the two answers it stands for.

use vstd::prelude::*;
use crate::error::ParseError;
use crate::text::{chars_of, rows, split, split_chars, string_of, texts};

verus! {

/// What stands for a second answer that was never printed.
pub open spec fn sentinel() -> Seq<char> {
    "N/A"@
}

/// Whether `c` is white space: a character with the Unicode property
/// `White_Space`.
pub open spec fn is_whitespace(c: char) -> bool {
    let u = c as u32;
    ||| 0x09 <= u <= 0x0D
    ||| u == 0x20
    ||| u == 0x85
    ||| u == 0xA0
    ||| u == 0x1680
    ||| 0x2000 <= u <= 0x200A
    ||| u == 0x2028
    ||| u == 0x2029
    ||| u == 0x202F
    ||| u == 0x205F
    ||| u == 0x3000
}

/// `s` without the white space at its end.
pub open spec fn trim_end(s: Seq<char>) -> Seq<char>
    decreases s.len(),
{
    if s.len() > 0 && is_whitespace(s.last()) {
        trim_end(s.drop_last())
    } else {
        s
    }
}

/// `s` without its carriage returns.
pub open spec fn without_cr(s: Seq<char>) -> Seq<char> {
    s.filter(|c: char| c != '\r')
}

/// The answer lines of printed output: white space at the end of the output
/// is dropped, the rest is cut at each newline, carriage returns are taken
/// out of every piece, and the pieces that are then empty are left out.
pub open spec fn answer_lines(output: Seq<char>) -> Seq<Seq<char>> {
    split(trim_end(output), '\n').map_values(|l: Seq<char>| without_cr(l)).filter(
        |l: Seq<char>| l.len() > 0,
    )
}

/// The two answers that a list of lines stands for: one line is the first
/// answer, with the sentinel for the second; two lines are the two answers in
/// order; any other number of lines stands for nothing.
pub open spec fn normalized(lines: Seq<Seq<char>>) -> Result<(Seq<char>, Seq<char>), ParseError> {
    if lines.len() == 1 {
        Ok((lines[0], sentinel()))
    } else if lines.len() == 2 {
        Ok((lines[0], lines[1]))
    } else {
        Err(ParseError::UnexpectedLineCount)
    }
}

/// The two answers that printed output stands for.
pub open spec fn parsed_answers(output: Seq<char>) -> Result<(Seq<char>, Seq<char>), ParseError> {
    normalized(answer_lines(output))
}

/// A pair of answers as texts.
pub open spec fn answers_view(r: Result<(String, String), ParseError>) -> Result<
    (Seq<char>, Seq<char>),
    ParseError,
> {
    match r {
        Ok(pair) => Ok((pair.0@, pair.1@)),
        Err(e) => Err(e),
    }
}

/// Whether `c` is white space.
pub fn char_is_whitespace(c: char) -> (b: bool)
    ensures
        b == is_whitespace(c),
{
    let u: u32 = c as u32;
    (0x09 <= u && u <= 0x0D) || u == 0x20 || u == 0x85 || u == 0xA0 || u == 0x1680 || (0x2000 <= u
        && u <= 0x200A) || u == 0x2028 || u == 0x2029 || u == 0x202F || u == 0x205F || u == 0x3000
}

/// The length of `v` without the white space at its end.
pub fn trimmed_len(v: &Vec<char>) -> (end: usize)
    ensures
        end <= v.len(),
        v@.take(end as int) == trim_end(v@),
{
    let mut end: usize = v.len();
    assert(v@.take(end as int) == v@);
    while end > 0 && char_is_whitespace(v[end - 1])
        invariant
            end <= v.len(),
            trim_end(v@) == trim_end(v@.take(end as int)),
        decreases end,
    {
        assert(v@.take(end as int).drop_last() == v@.take(end - 1));
        end -= 1;
    }
    end
}

/// `v` without its carriage returns.
pub fn strip_carriage_returns(v: &Vec<char>) -> (out: Vec<char>)
    ensures
        out@ == without_cr(v@),
{
    let mut out: Vec<char> = Vec::new();
    let mut i: usize = 0;
    proof {
        reveal(Seq::filter);
        assert(v@.take(0) == Seq::<char>::empty());
    }
    while i < v.len()
        invariant
            i <= v.len(),
            out@ == without_cr(v@.take(i as int)),
        decreases v.len() - i,
    {
        let c: char = v[i];
        proof {
            reveal(Seq::filter);
            assert(v@.take(i + 1).drop_last() == v@.take(i as int));
        }
        if c != '\r' {
            out.push(c);
        }
        i += 1;
    }
    assert(v@.take(v@.len() as int) == v@);
    out
}

/// The answer lines of what a solution printed.
pub fn output_lines(output: &str) -> (lines: Vec<String>)
    ensures
        texts(lines@) == answer_lines(output@),
{
    let chars = chars_of(output);
    let end = trimmed_len(&chars);
    let pieces = split_chars(&chars, end, '\n');
    let ghost cleaned = rows(pieces@).map_values(|l: Seq<char>| without_cr(l));
    let ghost keep = |l: Seq<char>| l.len() > 0;
    let mut lines: Vec<String> = Vec::new();
    let mut i: usize = 0;
    proof {
        reveal(Seq::filter);
        assert(cleaned.take(0) == Seq::<Seq<char>>::empty());
        assert(texts(lines@) == Seq::<Seq<char>>::empty());
    }
    while i < pieces.len()
        invariant
            i <= pieces.len(),
            cleaned == rows(pieces@).map_values(|l: Seq<char>| without_cr(l)),
            keep == |l: Seq<char>| l.len() > 0,
            texts(lines@) == cleaned.take(i as int).filter(keep),
        decreases pieces.len() - i,
    {
        let line = strip_carriage_returns(&pieces[i]);
        proof {
            reveal(Seq::filter);
            assert(cleaned.take(i + 1).drop_last() == cleaned.take(i as int));
            assert(cleaned.take(i + 1).last() == line@);
        }
        if line.len() > 0 {
            let text = string_of(&line);
            assert(texts(lines@.push(text)) == texts(lines@).push(line@));
            lines.push(text);
        }
        i += 1;
    }
    assert(cleaned.take(pieces@.len() as int) == cleaned);
    lines
}

/// Reads a list of answer lines as the two answers of a day.
///
/// One line is the first answer and leaves the sentinel `N/A` as the second;
/// two lines are both answers, in order. No line, or more than two, is an
/// error. What a line holds is not looked at.
pub fn normalize(lines: Vec<String>) -> (r: Result<(String, String), ParseError>)
    ensures
        answers_view(r) == normalized(texts(lines@)),
        lines.len() == 1 ==> (r matches Ok(pair) && pair.0@ == lines[0]@ && pair.1@ == sentinel()),
        lines.len() == 2 ==> (r matches Ok(pair) && pair.0@ == lines[0]@ && pair.1@ == lines[1]@),
        lines.len() == 0 || lines.len() >= 3 ==> r == Err::<(String, String), ParseError>(
            ParseError::UnexpectedLineCount,
        ),
{
    let mut lines = lines;
    if lines.len() == 1 {
        let first = lines.pop().unwrap();
        Ok((first, "N/A".to_owned()))
    } else if lines.len() == 2 {
        let second = lines.pop().unwrap();
        let first = lines.pop().unwrap();
        Ok((first, second))
    } else {
        Err(ParseError::UnexpectedLineCount)
    }
}

/// Reads what a solution printed as the two answers of a day.
pub fn parse_answers(output: &str) -> (r: Result<(String, String), ParseError>)
    ensures
        answers_view(r) == parsed_answers(output@),
{
    normalize(output_lines(output))
}

/// Taking the carriage returns out of a text leaves no carriage return and
/// brings no character that the text did not hold.
proof fn lemma_without_cr(s: Seq<char>)
    ensures
        forall|i: int|
            0 <= i < without_cr(s).len() ==> (#[trigger] without_cr(s)[i]) != '\r' && s.contains(
                without_cr(s)[i],
            ),
    decreases s.len(),
{
    reveal(Seq::filter);
    if s.len() > 0 {
        let front = s.drop_last();
        lemma_without_cr(front);
        let kept = without_cr(front);
        assert forall|i: int| 0 <= i < without_cr(s).len() implies (#[trigger] without_cr(s)[i])
            != '\r' && s.contains(without_cr(s)[i]) by {
            if i < kept.len() {
                assert(without_cr(s)[i] == kept[i]);
                let j = choose|j: int| 0 <= j < front.len() && front[j] == kept[i];
                assert(s[j] == kept[i]);
            } else {
                assert(s[s.len() - 1] == without_cr(s)[i]);
            }
        }
    }
}

/// Every answer line holds something, and neither a line break nor a
/// carriage return.
pub proof fn lemma_answer_lines_are_clean(output: Seq<char>)
    ensures
        forall|i: int|
            0 <= i < answer_lines(output).len() ==> {
                let line = #[trigger] answer_lines(output)[i];
                line.len() > 0 && !line.contains('\n') && !line.contains('\r')
            },
{
    let pieces = split(trim_end(output), '\n');
    let cleaned = pieces.map_values(|l: Seq<char>| without_cr(l));
    let keep = |l: Seq<char>| l.len() > 0;
    let kept = cleaned.filter(keep);
    crate::text::lemma_split_pieces(trim_end(output), '\n');
    assert forall|i: int| 0 <= i < kept.len() implies {
        let line = #[trigger] kept[i];
        line.len() > 0 && !line.contains('\n') && !line.contains('\r')
    } by {
        let line = kept[i];
        cleaned.lemma_filter_pred(keep, i);
        assert(kept.contains(line));
        cleaned.lemma_filter_contains_rev(keep, line);
        let j = choose|j: int| 0 <= j < cleaned.len() && cleaned[j] == line;
        let piece = pieces[j];
        lemma_without_cr(piece);
        assert(!piece.contains('\n'));
        assert forall|k: int| 0 <= k < line.len() implies line[k] != '\n' && line[k] != '\r' by {
            assert(line[k] == without_cr(piece)[k]);
        }
    }
}

} // verus!
