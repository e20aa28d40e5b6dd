//! The pool as text: one item per line, the lines separated by `\n`.
//!
//! Every text is the text of exactly one pool whose items hold no `\n`: the
//! empty text is the pool of one empty item, and a text that ends in `\n` is
//! a pool whose last item is empty.

use crate::model::{items, lemma_items_push};
use vstd::prelude::*;

verus! {

/// The lines of `text`: what stands between its `\n` characters, before the
/// first of them and after the last.
pub open spec fn split_lines(text: Seq<char>) -> Seq<Seq<char>>
    decreases text.len(),
{
    if text.len() == 0 {
        seq![Seq::<char>::empty()]
    } else {
        let before = split_lines(text.drop_last());
        if text.last() == '\n' {
            before.push(Seq::<char>::empty())
        } else {
            before.drop_last().push(before.last().push(text.last()))
        }
    }
}

/// The text of `lines`: the lines in order, with `\n` between each two.
pub open spec fn join_lines(lines: Seq<Seq<char>>) -> Seq<char>
    decreases lines.len(),
{
    if lines.len() == 0 {
        Seq::<char>::empty()
    } else if lines.len() == 1 {
        lines[0]
    } else {
        join_lines(lines.drop_last()) + seq!['\n'] + lines.last()
    }
}

/// Whether no line of `lines` holds a `\n`.
pub open spec fn single_lines(lines: Seq<Seq<char>>) -> bool {
    forall|i: int, j: int|
        0 <= i < lines.len() && 0 <= j < lines[i].len() ==> #[trigger] lines[i][j] != '\n'
}

/// A text has at least one line, and no line of it holds a `\n`.
pub proof fn lemma_split_lines_shape(text: Seq<char>)
    ensures
        split_lines(text).len() >= 1,
        single_lines(split_lines(text)),
    decreases text.len(),
{
    if text.len() > 0 {
        lemma_split_lines_shape(text.drop_last());
    }
}

/// Joining the lines of a text gives the text back.
pub proof fn lemma_join_split(text: Seq<char>)
    ensures
        join_lines(split_lines(text)) == text,
    decreases text.len(),
{
    if text.len() > 0 {
        let shorter = text.drop_last();
        let before = split_lines(shorter);
        lemma_join_split(shorter);
        lemma_split_lines_shape(shorter);
        if text.last() == '\n' {
            let lines = before.push(Seq::<char>::empty());
            assert(lines.drop_last() =~= before);
            assert(join_lines(lines) =~= text);
        } else {
            let lines = before.drop_last().push(before.last().push(text.last()));
            if before.len() == 1 {
                assert(join_lines(lines) =~= text);
            } else {
                assert(lines.drop_last() =~= before.drop_last());
                assert(join_lines(before) == join_lines(before.drop_last()) + seq!['\n']
                    + before.last());
                assert(join_lines(lines) == join_lines(before.drop_last()) + seq!['\n']
                    + before.last().push(text.last()));
                assert(shorter.push(text.last()) =~= text);
                assert(join_lines(lines) =~= text);
            }
        }
    }
}

/// A text without `\n` is a single line.
pub proof fn lemma_split_single_line(line: Seq<char>)
    requires
        forall|j: int| 0 <= j < line.len() ==> line[j] != '\n',
    ensures
        split_lines(line) == seq![line],
    decreases line.len(),
{
    if line.len() == 0 {
        assert(line =~= Seq::<char>::empty());
    } else {
        lemma_split_single_line(line.drop_last());
        assert(line.drop_last().push(line.last()) =~= line);
        assert(seq![line.drop_last()].drop_last().push(line) =~= seq![line]);
    }
}

/// A text followed by `\n` and a line without `\n` has the lines of the text
/// and then that line.
pub proof fn lemma_split_lines_append(text: Seq<char>, line: Seq<char>)
    requires
        forall|j: int| 0 <= j < line.len() ==> line[j] != '\n',
    ensures
        split_lines(text + seq!['\n'] + line) == split_lines(text).push(line),
    decreases line.len(),
{
    let whole = text + seq!['\n'] + line;
    if line.len() == 0 {
        assert(whole.drop_last() =~= text);
        assert(line =~= Seq::<char>::empty());
    } else {
        let shorter = line.drop_last();
        lemma_split_lines_append(text, shorter);
        assert(whole.drop_last() =~= text + seq!['\n'] + shorter);
        assert(whole.last() == line.last());
        let before = split_lines(text).push(shorter);
        assert(before.drop_last() =~= split_lines(text));
        assert(shorter.push(line.last()) =~= line);
    }
}

/// Writing a pool as text and reading the text back gives the same items in
/// the same order, for every pool that has an item and holds no `\n` in any
/// of them.
pub proof fn lemma_split_join(lines: Seq<Seq<char>>)
    requires
        lines.len() >= 1,
        single_lines(lines),
    ensures
        split_lines(join_lines(lines)) == lines,
    decreases lines.len(),
{
    if lines.len() == 1 {
        let line = lines[0];
        assert forall|j: int| 0 <= j < line.len() implies line[j] != '\n' by {
            assert(lines[0][j] != '\n');
        }
        lemma_split_single_line(line);
        assert(lines =~= seq![line]);
    } else {
        let front = lines.drop_last();
        let line = lines.last();
        assert forall|i: int, j: int|
            0 <= i < front.len() && 0 <= j < front[i].len() implies #[trigger] front[i][j]
            != '\n' by {
            assert(lines[i][j] != '\n');
        }
        assert forall|j: int| 0 <= j < line.len() implies line[j] != '\n' by {
            assert(lines[lines.len() - 1][j] != '\n');
        }
        lemma_split_join(front);
        lemma_split_lines_append(join_lines(front), line);
        assert(front.push(line) =~= lines);
    }
}

/// Reads a pool from its text: one item for each line of `text`.
pub fn parse_pool(text: &str) -> (pool: Vec<String>)
    ensures
        items(pool@) == split_lines(text@),
{
    let mut pool: Vec<String> = Vec::new();
    let mut line = String::new();
    proof {
        assert(text@.take(0) =~= Seq::<char>::empty());
        assert(items(pool@).push(line@) =~= seq![Seq::<char>::empty()]);
    }
    for c in it: text.chars()
        invariant
            it.seq() == text@,
            items(pool@).push(line@) == split_lines(text@.take(it.index() as int)),
    {
        let ghost seen = text@.take(it.index() as int);
        let ghost next = text@.take(it.index() + 1);
        proof {
            assert(next.drop_last() =~= seen);
            assert(next.last() == c);
        }
        if c == '\n' {
            proof {
                lemma_items_push(pool@, line);
            }
            pool.push(line);
            line = String::new();
        } else {
            let ghost whole = items(pool@).push(line@);
            line.push(c);
            proof {
                assert(whole.drop_last() =~= items(pool@));
            }
        }
    }
    proof {
        assert(text@.take(text@.len() as int) =~= text@);
        lemma_items_push(pool@, line);
    }
    pool.push(line);
    pool
}

/// Writes a pool as text: its items in order, with `\n` between each two.
pub fn render_pool(pool: &Vec<String>) -> (text: String)
    ensures
        text@ == join_lines(items(pool@)),
{
    let mut text = String::new();
    let mut done: usize = 0;
    proof {
        assert(items(pool@).take(0) =~= Seq::<Seq<char>>::empty());
    }
    while done < pool.len()
        invariant
            done <= pool.len(),
            text@ == join_lines(items(pool@).take(done as int)),
        decreases pool.len() - done,
    {
        let ghost written = items(pool@).take(done as int);
        let ghost next = items(pool@).take(done + 1);
        proof {
            assert(next.drop_last() =~= written);
            assert(next.last() == pool@[done as int]@);
        }
        if done > 0 {
            text.push('\n');
        }
        text.append(pool[done].as_str());
        proof {
            if done > 0 {
                assert(text@ =~= join_lines(written) + seq!['\n'] + next.last());
            } else {
                assert(text@ =~= next.last());
                assert(next[0] == next.last());
            }
        }
        done += 1;
    }
    proof {
        assert(items(pool@).take(pool@.len() as int) =~= items(pool@));
    }
    text
}

} // verus!
