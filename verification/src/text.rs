//! Texts: what lists of strings hold, and which texts are a single line.

use vstd::prelude::*;

verus! {

/// The texts of a list of owned strings.
pub open spec fn texts(strings: Seq<String>) -> Seq<Seq<char>> {
    strings.map_values(|s: String| s@)
}

/// Whether a text is a single line: it holds no line feed.
pub open spec fn single_line(text: Seq<char>) -> bool {
    !text.contains('\n')
}

/// Two single lines written one after the other are a single line.
pub proof fn lemma_single_line_concat(left: Seq<char>, right: Seq<char>)
    requires
        single_line(left),
        single_line(right),
    ensures
        single_line(left + right),
{
    let whole = left + right;
    if whole.contains('\n') {
        let i = choose|i: int| 0 <= i < whole.len() && whole[i] == '\n';
        if i < left.len() {
            assert(left[i] == '\n');
        } else {
            assert(right[i - left.len()] == '\n');
        }
    }
}

} // verus!
