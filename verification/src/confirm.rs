//! Reading the operator's answer to the confirmation prompt.
//!
//! An answer approves the deletion if, with surrounding white space removed,
//! it is `y` or `Y`, or if it is a lone newline: pressing Enter accepts.
//! Everything else declines.

use vstd::prelude::*;

verus! {

/// Whether `c` is white space as Unicode defines it (`White_Space`).
pub open spec fn is_white_space(c: char) -> bool {
    let code = c as u32;
    ||| 0x09 <= code <= 0x0D
    ||| code == 0x20
    ||| code == 0x85
    ||| code == 0xA0
    ||| code == 0x1680
    ||| 0x2000 <= code <= 0x200A
    ||| code == 0x2028
    ||| code == 0x2029
    ||| code == 0x202F
    ||| code == 0x205F
    ||| code == 0x3000
}

/// `text` without its leading white space.
pub open spec fn trim_start(text: Seq<char>) -> Seq<char>
    decreases text.len(),
{
    if text.len() > 0 && is_white_space(text.first()) {
        trim_start(text.drop_first())
    } else {
        text
    }
}

/// `text` without its trailing white space.
pub open spec fn trim_end(text: Seq<char>) -> Seq<char>
    decreases text.len(),
{
    if text.len() > 0 && is_white_space(text.last()) {
        trim_end(text.drop_last())
    } else {
        text
    }
}

/// `text` without its leading and trailing white space.
pub open spec fn trim(text: Seq<char>) -> Seq<char> {
    trim_end(trim_start(text))
}

/// Whether `text` consists of the single character `c`.
pub open spec fn is_lone(text: Seq<char>, c: char) -> bool {
    text.len() == 1 && text[0] == c
}

/// Whether the raw answer `raw` approves: trimmed, it is the letter `y` in
/// either case; or, untrimmed, it is a lone newline.
pub open spec fn affirmative(raw: Seq<char>) -> bool {
    ||| is_lone(trim(raw), 'y')
    ||| is_lone(trim(raw), 'Y')
    ||| is_lone(raw, '\n')
}

/// Whether the deletion may proceed: approval is either granted beforehand
/// or given by the raw answer.
pub open spec fn confirmed(auto_yes: bool, raw: Seq<char>) -> bool {
    auto_yes || affirmative(raw)
}

/// Tells whether `c` is white space.
pub fn white_space(c: char) -> (white: bool)
    ensures
        white == is_white_space(c),
{
    let code: u32 = c as u32;
    (0x09 <= code && code <= 0x0D) || code == 0x20 || code == 0x85 || code == 0xA0 || code
        == 0x1680 || (0x2000 <= code && code <= 0x200A) || code == 0x2028 || code == 0x2029
        || code == 0x202F || code == 0x205F || code == 0x3000
}

/// Tells whether the operator's raw answer approves the deletion.
pub fn is_affirmative(input: &str) -> (approved: bool)
    ensures
        approved == affirmative(input@),
{
    let all = characters(input);
    let count: usize = all.len();
    let mut from: usize = 0;
    while from < count && white_space(all[from])
        invariant
            count == all@.len(),
            from <= count,
            forall|j: int| 0 <= j < from ==> is_white_space(all@[j]),
        decreases count - from,
    {
        from += 1;
    }
    let mut to: usize = count;
    while to > from && white_space(all[to - 1])
        invariant
            count == all@.len(),
            from <= to <= count,
            forall|j: int| to <= j < count ==> is_white_space(all@[j]),
        decreases to,
    {
        to -= 1;
    }
    proof {
        lemma_trim_start(all@, from as int);
        lemma_trim_end(all@.subrange(from as int, count as int), to - from);
        assert(trim(all@) =~= all@.subrange(from as int, to as int));
    }
    let lone_letter = to - from == 1 && (all[from] == 'y' || all[from] == 'Y');
    let lone_newline = count == 1 && all[0] == '\n';
    lone_letter || lone_newline
}

/// Decides whether the deletion may proceed. With `auto_yes` the answer is
/// not looked at.
pub fn confirm(auto_yes: bool, input: &str) -> (proceed: bool)
    ensures
        proceed == confirmed(auto_yes, input@),
{
    auto_yes || is_affirmative(input)
}

/// The characters of `text`, one by one.
fn characters(text: &str) -> (all: Vec<char>)
    ensures
        all@ == text@,
{
    let mut all: Vec<char> = Vec::new();
    for c in it: text.chars()
        invariant
            it.seq() == text@,
            all@ == text@.take(it.index() as int),
    {
        all.push(c);
    }
    all
}

/// Leading white space is what stands before the first other character.
proof fn lemma_trim_start(text: Seq<char>, from: int)
    requires
        0 <= from <= text.len(),
        forall|j: int| 0 <= j < from ==> is_white_space(text[j]),
        from == text.len() || !is_white_space(text[from]),
    ensures
        trim_start(text) == text.subrange(from, text.len() as int),
    decreases from,
{
    if from > 0 {
        lemma_trim_start(text.drop_first(), from - 1);
    }
}

/// Trailing white space is what stands after the last other character.
proof fn lemma_trim_end(text: Seq<char>, to: int)
    requires
        0 <= to <= text.len(),
        forall|j: int| to <= j < text.len() ==> is_white_space(text[j]),
        to == 0 || !is_white_space(text[to - 1]),
    ensures
        trim_end(text) == text.subrange(0, to),
    decreases text.len() - to,
{
    if to < text.len() {
        lemma_trim_end(text.drop_last(), to);
    }
}

} // verus!
