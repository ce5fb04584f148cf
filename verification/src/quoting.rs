//! How the shell reads back a value quoted with `shell_quote`.

use vstd::prelude::*;
use crate::text::{shell_escape, spec_shell_quote};

verus! {

/// How a POSIX shell reads a word made of single-quoted parts and
/// backslash-escaped characters: inside quotes every character but `'`
/// stands for itself, outside them `\x` stands for `x`. `None` for an
/// unclosed quote, a trailing backslash, or any other unquoted character
/// (which the shell could expand or split on).
pub open spec fn shell_read(w: Seq<char>, quoted: bool) -> Option<Seq<char>>
    decreases w.len(),
{
    if w.len() == 0 {
        if quoted { None } else { Some(seq![]) }
    } else if quoted {
        if w[0] == '\'' {
            shell_read(w.drop_first(), false)
        } else {
            match shell_read(w.drop_first(), true) {
                Some(r) => Some(seq![w[0]] + r),
                None => None,
            }
        }
    } else if w[0] == '\'' {
        shell_read(w.drop_first(), true)
    } else if w[0] == '\\' && w.len() >= 2 {
        match shell_read(w.skip(2), false) {
            Some(r) => Some(seq![w[1]] + r),
            None => None,
        }
    } else {
        None
    }
}

proof fn lemma_shell_escape_append(a: Seq<char>, b: Seq<char>)
    ensures
        shell_escape(a + b) == shell_escape(a) + shell_escape(b),
    decreases b.len(),
{
    if b.len() == 0 {
        assert(a + b =~= a);
        assert(shell_escape(a) + shell_escape(b) =~= shell_escape(a));
    } else {
        lemma_shell_escape_append(a, b.drop_last());
        assert((a + b).drop_last() =~= a + b.drop_last());
        assert((a + b).last() == b.last());
        if b.last() == '\'' {
            assert(shell_escape(a) + shell_escape(b.drop_last()) + seq!['\'', '\\', '\'', '\'']
                =~= shell_escape(a) + (shell_escape(b.drop_last()) + seq!['\'', '\\', '\'', '\'']));
        } else {
            assert((shell_escape(a) + shell_escape(b.drop_last())).push(b.last())
                =~= shell_escape(a) + shell_escape(b.drop_last()).push(b.last()));
        }
    }
}

/// The word `'\''` followed by `rest` reads as a quote followed by what
/// `rest` reads as, inside quotes.
proof fn lemma_shell_read_quote_escape(tail: Seq<char>)
    ensures
        shell_read(seq!['\'', '\\', '\'', '\''] + tail, true) == match shell_read(tail, true) {
            Some(r) => Some(seq!['\''] + r),
            None => None::<Seq<char>>,
        },
{
    let w = seq!['\'', '\\', '\'', '\''] + tail;
    let w1 = w.drop_first();
    assert(w1 =~= seq!['\\', '\'', '\''] + tail);
    let w2 = w1.skip(2);
    assert(w2 =~= seq!['\''] + tail);
    assert(w2.drop_first() =~= tail);
    assert(shell_read(w, true) == shell_read(w1, false));
    assert(shell_read(w2, false) == shell_read(tail, true));
    assert(shell_read(w1, false) == match shell_read(w2, false) {
        Some(r) => Some(seq![w1[1]] + r),
        None => None::<Seq<char>>,
    });
}

proof fn lemma_shell_read_escaped(s: Seq<char>, rest: Seq<char>)
    ensures
        shell_read(shell_escape(s) + seq!['\''] + rest, true) == match shell_read(rest, false) {
            Some(r) => Some(s + r),
            None => None::<Seq<char>>,
        },
    decreases s.len(),
{
    let w = shell_escape(s) + seq!['\''] + rest;
    if s.len() == 0 {
        assert(w =~= seq!['\''] + rest);
        assert(w.drop_first() =~= rest);
        assert(shell_read(w, true) == shell_read(rest, false));
        match shell_read(rest, false) {
            Some(r) => assert(s + r =~= r),
            None => {},
        }
    } else {
        let c = s[0];
        let t = s.drop_first();
        lemma_shell_read_escaped(t, rest);
        lemma_shell_escape_append(seq![c], t);
        assert(seq![c] + t =~= s);
        assert(seq![c].drop_last() =~= Seq::<char>::empty());
        assert(seq![c].last() == c);
        assert(shell_escape(Seq::<char>::empty()) =~= Seq::<char>::empty());
        let tail = shell_escape(t) + seq!['\''] + rest;
        if c == '\'' {
            assert(shell_escape(seq![c]) =~= seq!['\'', '\\', '\'', '\'']);
            assert(w =~= seq!['\'', '\\', '\'', '\''] + tail);
            lemma_shell_read_quote_escape(tail);
        } else {
            assert(shell_escape(seq![c]) =~= seq![c]);
            assert(w =~= seq![c] + tail);
            assert(w.drop_first() =~= tail);
            assert(shell_read(w, true) == match shell_read(tail, true) {
                Some(r) => Some(seq![c] + r),
                None => None::<Seq<char>>,
            });
        }
        match shell_read(rest, false) {
            Some(r) => assert(seq![c] + (t + r) =~= s + r),
            None => {},
        }
    }
}

/// A value quoted by [`shell_quote`] is read back by the shell as exactly
/// that value: nothing in it is expanded, split or taken as shell syntax.
pub proof fn law_shell_quote(s: Seq<char>)
    ensures
        shell_read(spec_shell_quote(s), false) == Some(s),
{
    let w = spec_shell_quote(s);
    lemma_shell_read_escaped(s, seq![]);
    assert(w.drop_first() =~= shell_escape(s) + seq!['\''] + Seq::<char>::empty());
    assert(s + Seq::<char>::empty() =~= s);
}

} // verus!
