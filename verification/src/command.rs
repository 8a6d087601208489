//! The command line of the monitored program: one string, cut at every space.
//!
//! No shell stands between the string and the program. There is no quoting,
//! no escaping and no expansion: a space always ends a token, and two spaces
//! in a row enclose an empty token.

use crate::text::texts;
use vstd::prelude::*;
use vstd::string::*;

verus! {

broadcast use vstd::string::group_string_axioms;

/// The tokens of a command line, read from left to right: a space closes the
/// current token and opens a new, empty one; any other character joins the
/// current token.
pub open spec fn split_on_spaces(line: Seq<char>) -> Seq<Seq<char>>
    decreases line.len(),
{
    if line.len() == 0 {
        seq![Seq::<char>::empty()]
    } else {
        let before = split_on_spaces(line.drop_last());
        if line.last() == ' ' {
            before.push(Seq::<char>::empty())
        } else {
            before.update(before.len() - 1, before.last().push(line.last()))
        }
    }
}

/// The tokens written one after the other with a single space between
/// neighbours.
pub open spec fn join_with_spaces(tokens: Seq<Seq<char>>) -> Seq<char>
    decreases tokens.len(),
{
    if tokens.len() == 0 {
        Seq::<char>::empty()
    } else if tokens.len() == 1 {
        tokens[0]
    } else {
        join_with_spaces(tokens.drop_last()).push(' ') + tokens.last()
    }
}

/// Whether a line names no program: it is empty or made of spaces only.
pub open spec fn is_blank(line: Seq<char>) -> bool {
    forall|i: int| 0 <= i < line.len() ==> line[i] == ' '
}

/// How many spaces a line holds.
pub open spec fn count_spaces(line: Seq<char>) -> nat
    decreases line.len(),
{
    if line.len() == 0 {
        0
    } else {
        count_spaces(line.drop_last()) + if line.last() == ' ' {
            1nat
        } else {
            0nat
        }
    }
}

/// Whether no token holds a space.
pub open spec fn space_free(tokens: Seq<Seq<char>>) -> bool {
    forall|k: int, i: int|
        0 <= k < tokens.len() && 0 <= i < tokens[k].len() ==> #[trigger] tokens[k][i] != ' '
}

/// Cutting never yields an empty list: a line with `n` spaces has `n + 1`
/// tokens.
pub proof fn lemma_split_count(line: Seq<char>)
    ensures
        split_on_spaces(line).len() == count_spaces(line) + 1,
    decreases line.len(),
{
    if line.len() > 0 {
        lemma_split_count(line.drop_last());
    }
}

/// No token of a cut line holds a space.
pub proof fn lemma_split_space_free(line: Seq<char>)
    ensures
        space_free(split_on_spaces(line)),
    decreases line.len(),
{
    if line.len() > 0 {
        lemma_split_count(line.drop_last());
        lemma_split_space_free(line.drop_last());
        let before = split_on_spaces(line.drop_last());
        let after = split_on_spaces(line);
        assert forall|k: int, i: int|
            0 <= k < after.len() && 0 <= i < after[k].len() implies #[trigger] after[k][i]
            != ' ' by {
            if k < before.len() - 1 {
                assert(after[k] == before[k]);
                assert(before[k][i] != ' ');
            } else if line.last() != ' ' {
                if i < before.last().len() {
                    assert(before[k][i] != ' ');
                }
            }
        }
    }
}

/// Joining puts a space before an added empty token and nothing else.
proof fn lemma_join_push_empty(tokens: Seq<Seq<char>>)
    requires
        tokens.len() >= 1,
    ensures
        join_with_spaces(tokens.push(Seq::<char>::empty())) == join_with_spaces(tokens).push(' '),
{
    let longer = tokens.push(Seq::<char>::empty());
    assert(longer.drop_last() =~= tokens);
    assert(join_with_spaces(tokens).push(' ') + Seq::<char>::empty() =~= join_with_spaces(
        tokens,
    ).push(' '));
}

/// A character added to the last token is added to the joined line.
proof fn lemma_join_extend_last(tokens: Seq<Seq<char>>, c: char)
    requires
        tokens.len() >= 1,
    ensures
        join_with_spaces(tokens.update(tokens.len() - 1, tokens.last().push(c)))
            == join_with_spaces(tokens).push(c),
{
    let longer = tokens.update(tokens.len() - 1, tokens.last().push(c));
    if tokens.len() == 1 {
    } else {
        assert(longer.drop_last() =~= tokens.drop_last());
        assert(join_with_spaces(tokens.drop_last()).push(' ') + tokens.last().push(c) =~= (
        join_with_spaces(tokens.drop_last()).push(' ') + tokens.last()).push(c));
    }
}

/// Cutting a line and joining the tokens with single spaces gives the line
/// back, character for character, whatever the line holds.
pub proof fn lemma_join_split(line: Seq<char>)
    ensures
        join_with_spaces(split_on_spaces(line)) == line,
    decreases line.len(),
{
    if line.len() == 0 {
        assert(join_with_spaces(split_on_spaces(line)) =~= line);
    } else {
        lemma_join_split(line.drop_last());
        lemma_split_count(line.drop_last());
        let before = split_on_spaces(line.drop_last());
        if line.last() == ' ' {
            lemma_join_push_empty(before);
        } else {
            lemma_join_extend_last(before, line.last());
        }
        assert(line.drop_last().push(line.last()) =~= line);
    }
}

/// Cutting a line that ends in one more token-free character run: the tokens
/// of `line + tail`, for a `tail` without spaces, are those of `line` with
/// `tail` added to the last one.
proof fn lemma_split_append_token(line: Seq<char>, tail: Seq<char>)
    requires
        forall|i: int| 0 <= i < tail.len() ==> tail[i] != ' ',
    ensures
        split_on_spaces(line + tail) == split_on_spaces(line).update(
            split_on_spaces(line).len() - 1,
            split_on_spaces(line).last() + tail,
        ),
    decreases tail.len(),
{
    let cut = split_on_spaces(line);
    lemma_split_count(line);
    if tail.len() == 0 {
        assert(line + tail =~= line);
        assert(cut.last() + tail =~= cut.last());
        assert(cut.update(cut.len() - 1, cut.last()) =~= cut);
    } else {
        let shorter = tail.drop_last();
        lemma_split_append_token(line, shorter);
        assert((line + tail).drop_last() =~= line + shorter);
        assert((line + tail).last() == tail.last());
        let mid = split_on_spaces(line + shorter);
        assert(mid.last().push(tail.last()) =~= cut.last() + tail);
        assert(mid.update(mid.len() - 1, mid.last().push(tail.last())) =~= cut.update(
            cut.len() - 1,
            cut.last() + tail,
        ));
    }
}

/// Joining tokens that hold no space and cutting the result gives the tokens
/// back, in their order.
pub proof fn lemma_split_join(tokens: Seq<Seq<char>>)
    requires
        tokens.len() >= 1,
        space_free(tokens),
    ensures
        split_on_spaces(join_with_spaces(tokens)) == tokens,
    decreases tokens.len(),
{
    let last = tokens.last();
    assert forall|i: int| 0 <= i < last.len() implies last[i] != ' ' by {
        assert(tokens[tokens.len() - 1][i] != ' ');
    }
    if tokens.len() == 1 {
        let none = Seq::<char>::empty();
        lemma_split_append_token(none, last);
        assert(none + last =~= last);
        assert(split_on_spaces(none).update(0, none + last) =~= tokens);
    } else {
        let front = tokens.drop_last();
        assert(space_free(front)) by {
            assert forall|k: int, i: int|
                0 <= k < front.len() && 0 <= i < front[k].len() implies #[trigger] front[k][i]
                != ' ' by {
                assert(tokens[k][i] != ' ');
            }
        }
        lemma_split_join(front);
        let head = join_with_spaces(front).push(' ');
        assert(head.drop_last() =~= join_with_spaces(front));
        assert(split_on_spaces(head) == front.push(Seq::<char>::empty()));
        lemma_split_append_token(head, last);
        assert(Seq::<char>::empty() + last =~= last);
        assert(front.push(Seq::<char>::empty()).update(front.len() as int, last) =~= tokens);
    }
}

/// A blank line stays blank when a space is added, and no line stays blank
/// when another character is added.
proof fn lemma_blank_step(line: Seq<char>)
    requires
        line.len() > 0,
    ensures
        is_blank(line) <==> (is_blank(line.drop_last()) && line.last() == ' '),
{
    let front = line.drop_last();
    if is_blank(line) {
        assert forall|i: int| 0 <= i < front.len() implies front[i] == ' ' by {
            assert(line[i] == ' ');
        }
    }
    if is_blank(front) && line.last() == ' ' {
        assert forall|i: int| 0 <= i < line.len() implies line[i] == ' ' by {
            if i < front.len() {
                assert(front[i] == ' ');
            }
        }
    }
}


/// Why a command line was turned down.
#[derive(Debug, Clone, Copy, PartialEq, Eq, Structural)]
pub enum CommandError {
    /// The line is empty or holds nothing but spaces.
    MissingCommand,
}

/// Cuts a command line at every space.
///
/// The result is never empty; a blank line gives empty tokens only.
pub fn tokenize(line: &str) -> (tokens: Vec<String>)
    ensures
        texts(tokens@) == split_on_spaces(line@),
        tokens.len() >= 1,
        space_free(texts(tokens@)),
        join_with_spaces(texts(tokens@)) == line@,
{
    let length: usize = line.unicode_len();
    let mut tokens: Vec<String> = Vec::new();
    let mut start: usize = 0;
    let mut at: usize = 0;
    assert(line@.take(0) =~= Seq::<char>::empty());
    assert(texts(tokens@).push(line@.subrange(0, 0)) =~= split_on_spaces(line@.take(0)));
    for c in it: line.chars()
        invariant
            it.seq() == line@,
            line@.len() == length,
            at == it.index(),
            start <= at <= length,
            split_on_spaces(line@.take(at as int)) == texts(tokens@).push(
                line@.subrange(start as int, at as int),
            ),
    {
        let ghost seen = line@.take(at as int);
        let ghost next = line@.take(at + 1);
        proof {
            assert(at < length);
            assert(c == line@[at as int]);
            assert(next.drop_last() =~= seen);
            assert(next.last() == c);
        }
        if c == ' ' {
            let token = String::from_str(line.substring_char(start, at));
            let ghost closed = tokens@;
            tokens.push(token);
            proof {
                assert(texts(tokens@) =~= texts(closed).push(
                    line@.subrange(start as int, at as int),
                ));
                assert(line@.subrange(at + 1, at + 1) =~= Seq::<char>::empty());
            }
            start = at + 1;
        } else {
            proof {
                let open = texts(tokens@).push(line@.subrange(start as int, at as int));
                assert(line@.subrange(start as int, at as int).push(c) =~= line@.subrange(
                    start as int,
                    at + 1,
                ));
                assert(open.update(open.len() - 1, open.last().push(c)) =~= texts(tokens@).push(
                    line@.subrange(start as int, at + 1),
                ));
            }
        }
        at = at + 1;
    }
    let token = String::from_str(line.substring_char(start, at));
    let ghost closed = tokens@;
    tokens.push(token);
    proof {
        assert(line@.take(at as int) =~= line@);
        assert(texts(tokens@) =~= texts(closed).push(line@.subrange(start as int, at as int)));
        lemma_split_count(line@);
        lemma_split_space_free(line@);
        lemma_join_split(line@);
    }
    tokens
}


/// Whether every token is empty.
pub open spec fn all_empty(tokens: Seq<Seq<char>>) -> bool {
    forall|k: int| 0 <= k < tokens.len() ==> (#[trigger] tokens[k]).len() == 0
}

/// A line is blank exactly when cutting it leaves empty tokens only.
pub proof fn lemma_blank_tokens(line: Seq<char>)
    ensures
        is_blank(line) <==> all_empty(split_on_spaces(line)),
    decreases line.len(),
{
    if line.len() > 0 {
        let front = line.drop_last();
        let before = split_on_spaces(front);
        let after = split_on_spaces(line);
        lemma_blank_tokens(front);
        lemma_blank_step(line);
        lemma_split_count(front);
        if line.last() == ' ' {
            if all_empty(before) {
                assert forall|k: int| 0 <= k < after.len() implies (#[trigger] after[k]).len()
                    == 0 by {
                    if k < before.len() {
                        assert(before[k].len() == 0);
                    }
                }
            }
            if all_empty(after) {
                assert forall|k: int| 0 <= k < before.len() implies (#[trigger] before[k]).len()
                    == 0 by {
                    assert(after[k].len() == 0);
                }
            }
        } else {
            assert(after[after.len() - 1].len() > 0);
        }
    }
}

/// Cutting keeps the content and the order of a line. The tokens hold no
/// space; there is one more of them than the line has spaces; joined with
/// single spaces they give the line back, character for character; and they
/// are the only list of space-free tokens that does. A line that is not
/// blank has a token that is not empty.
pub proof fn law_tokens_keep_the_line(line: Seq<char>)
    ensures
        space_free(split_on_spaces(line)),
        split_on_spaces(line).len() == count_spaces(line) + 1,
        join_with_spaces(split_on_spaces(line)) == line,
        forall|tokens: Seq<Seq<char>>|
            tokens.len() >= 1 && space_free(tokens) && #[trigger] join_with_spaces(tokens) == line
                ==> tokens == split_on_spaces(line),
        !is_blank(line) ==> !all_empty(split_on_spaces(line)),
{
    lemma_split_space_free(line);
    lemma_split_count(line);
    lemma_join_split(line);
    lemma_blank_tokens(line);
    assert forall|tokens: Seq<Seq<char>>|
        tokens.len() >= 1 && space_free(tokens) && #[trigger] join_with_spaces(tokens)
            == line implies tokens == split_on_spaces(line) by {
        lemma_split_join(tokens);
    }
}

/// A command to run: the program's name and its arguments, as cut from one
/// line. It always holds at least one token.
#[derive(Debug)]
pub struct CommandSpec {
    tokens: Vec<String>,
}

impl View for CommandSpec {
    type V = Seq<Seq<char>>;

    closed spec fn view(&self) -> Seq<Seq<char>> {
        texts(self.tokens@)
    }
}

impl CommandSpec {
    #[verifier::type_invariant]
    spec fn well_formed(&self) -> bool {
        self.tokens.len() >= 1
    }

    /// Reads a command line. A blank line names no program and is turned
    /// down; any other line is cut at every space, and nothing is dropped or
    /// changed.
    pub fn parse(line: &str) -> (parsed: Result<CommandSpec, CommandError>)
        ensures
            is_blank(line@) <==> parsed is Err,
            parsed matches Ok(command) ==> command@ == split_on_spaces(line@) && space_free(
                command@,
            ) && join_with_spaces(command@) == line@,
    {
        let tokens = tokenize(line);
        let mut blank = true;
        let mut k: usize = 0;
        while k < tokens.len()
            invariant
                k <= tokens.len(),
                blank <==> all_empty(texts(tokens@).take(k as int)),
            decreases tokens.len() - k,
        {
            let ghost seen = texts(tokens@).take(k as int);
            let ghost next = texts(tokens@).take(k + 1);
            proof {
                assert(next[k as int] == tokens[k as int]@);
                if all_empty(next) {
                    assert forall|j: int| 0 <= j < seen.len() implies (#[trigger] seen[j]).len()
                        == 0 by {
                        assert(next[j].len() == 0);
                    }
                }
                if all_empty(seen) && tokens[k as int]@.len() == 0 {
                    assert forall|j: int| 0 <= j < next.len() implies (#[trigger] next[j]).len()
                        == 0 by {
                        if j < k {
                            assert(seen[j].len() == 0);
                        }
                    }
                }
            }
            if !tokens[k].as_str().is_empty() {
                blank = false;
            }
            k = k + 1;
        }
        proof {
            assert(texts(tokens@).take(k as int) =~= texts(tokens@));
            lemma_blank_tokens(line@);
        }
        if blank {
            Err(CommandError::MissingCommand)
        } else {
            Ok(CommandSpec { tokens })
        }
    }

    /// All tokens in their order: the program's name, then its arguments.
    pub fn tokens(&self) -> (tokens: &Vec<String>)
        ensures
            texts(tokens@) == self@,
            tokens.len() >= 1,
    {
        proof {
            use_type_invariant(self);
        }
        &self.tokens
    }

    /// The first token: the name of the program to run.
    pub fn program(&self) -> (name: &String)
        ensures
            self@.len() >= 1,
            name@ == self@[0],
    {
        proof {
            use_type_invariant(self);
        }
        &self.tokens[0]
    }

    /// The tokens after the first, in their order: the arguments of the
    /// program, each as it stands in the line.
    pub fn arguments(&self) -> (arguments: Vec<String>)
        ensures
            texts(arguments@) == self@.skip(1),
    {
        proof {
            use_type_invariant(self);
        }
        let mut arguments: Vec<String> = Vec::new();
        let mut at: usize = 1;
        while at < self.tokens.len()
            invariant
                1 <= at <= self.tokens.len(),
                texts(arguments@) == texts(self.tokens@).subrange(1, at as int),
            decreases self.tokens.len() - at,
        {
            let ghost before = arguments@;
            arguments.push(self.tokens[at].clone());
            assert(texts(arguments@) =~= texts(before).push(self.tokens[at as int]@));
            assert(texts(self.tokens@).subrange(1, at + 1) =~= texts(self.tokens@).subrange(
                1,
                at as int,
            ).push(self.tokens[at as int]@));
            at = at + 1;
        }
        assert(texts(self.tokens@).subrange(1, at as int) =~= texts(self.tokens@).skip(1));
        arguments
    }
}

} // verus!
