//! The character pool: the candidates from which passwords are sampled.
//!
//! A pool is read from text of one or more lines. Every character of every
//! line is one entry, in the order of the text; the line terminators are not.
//! Nothing is required of a pool: it may repeat a character and may be empty.

use vstd::prelude::*;

verus! {

/// Whether the character at index `i` of `text` belongs to a line
/// terminator: a line feed, or a carriage return directly before one.
pub open spec fn ends_line_at(text: Seq<char>, i: int) -> bool {
    ||| text[i] == '\n'
    ||| (text[i] == '\r' && i + 1 < text.len() && text[i + 1] == '\n')
}

/// The pool entries among the first `n` characters of `text`.
pub open spec fn entries_before(text: Seq<char>, n: nat) -> Seq<char>
    decreases n,
{
    if n == 0 {
        Seq::empty()
    } else if ends_line_at(text, n - 1) {
        entries_before(text, (n - 1) as nat)
    } else {
        entries_before(text, (n - 1) as nat).push(text[n - 1])
    }
}

/// The pool that `text` holds: its characters in order, without those of
/// its line terminators.
pub open spec fn pool_of_text(text: Seq<char>) -> Seq<char> {
    entries_before(text, text.len())
}

/// Reads the pool out of `text`: the lines are joined with nothing between
/// them, and every remaining character is one entry.
pub fn pool_from_text(text: &str) -> (pool: Vec<char>)
    ensures
        pool@ == pool_of_text(text@),
{
    broadcast use vstd::string::group_string_axioms;

    let mut pool: Vec<char> = Vec::new();
    // A carriage return is an entry unless a line feed follows it, so it is
    // held back until the next character is seen.
    let mut held_return: bool = false;
    for c in it: text.chars()
        invariant
            it.seq() == text@,
            held_return ==> it.index() > 0 && text@[it.index() - 1] == '\r' && pool@
                == entries_before(text@, (it.index() - 1) as nat),
            !held_return ==> pool@ == entries_before(text@, it.index() as nat),
    {
        proof {
            let i = it.index();
            assert(c == text@[i]);
            if held_return {
                assert(ends_line_at(text@, i - 1) <==> c == '\n');
                assert(entries_before(text@, i as nat) == if c == '\n' {
                    entries_before(text@, (i - 1) as nat)
                } else {
                    entries_before(text@, (i - 1) as nat).push('\r')
                });
            }
        }
        if held_return && c != '\n' {
            pool.push('\r');
        }
        if c == '\r' {
            held_return = true;
        } else {
            held_return = false;
            if c != '\n' {
                pool.push(c);
            }
        }
    }
    if held_return {
        pool.push('\r');
    }
    pool
}

/// The entries of a pool are no more than the characters of its text, each
/// of them is a character of the text, and none is a line feed.
pub proof fn lemma_entries_come_from_text(text: Seq<char>, n: nat)
    requires
        n <= text.len(),
    ensures
        entries_before(text, n).len() <= n,
        forall|k: int|
            0 <= k < entries_before(text, n).len() ==> {
                &&& (#[trigger] entries_before(text, n)[k]) != '\n'
                &&& text.contains(entries_before(text, n)[k])
            },
    decreases n,
{
    if n > 0 {
        lemma_entries_come_from_text(text, (n - 1) as nat);
        let before = entries_before(text, (n - 1) as nat);
        let entries = entries_before(text, n);
        assert(text.contains(text[n - 1]));
        assert forall|k: int| 0 <= k < entries.len() implies (#[trigger] entries[k]) != '\n'
            && text.contains(entries[k]) by {
            if k < before.len() {
                assert(entries[k] == before[k]);
            }
        }
    }
}

/// Text of a single line, with no line feed in it, is its own pool.
pub proof fn lemma_single_line_is_pool(text: Seq<char>)
    requires
        !text.contains('\n'),
    ensures
        pool_of_text(text) == text,
{
    lemma_prefix_without_breaks(text, text.len());
    assert(text.take(text.len() as int) =~= text);
}

/// Up to any point, text with no line feed in it keeps every character.
pub proof fn lemma_prefix_without_breaks(text: Seq<char>, n: nat)
    requires
        n <= text.len(),
        !text.contains('\n'),
    ensures
        entries_before(text, n) == text.take(n as int),
    decreases n,
{
    if n > 0 {
        lemma_prefix_without_breaks(text, (n - 1) as nat);
        assert(text.contains(text[n - 1]));
        if n < text.len() {
            assert(text.contains(text[n as int]));
        }
        assert(!ends_line_at(text, n - 1));
        assert(text.take(n as int) =~= text.take(n - 1).push(text[n - 1]));
    } else {
        assert(text.take(0) =~= Seq::<char>::empty());
    }
}

} // verus!
