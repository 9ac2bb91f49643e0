//! Splitting migration text into statements and statements into tokens.

use vstd::prelude::*;

use crate::matching::strs;
use crate::text::{chars_of, lower_of, lowercase};

verus! {

/// The concatenation of `pieces`, in order.
pub open spec fn concat_all(pieces: Seq<Seq<char>>) -> Seq<char>
    decreases pieces.len(),
{
    if pieces.len() == 0 {
        Seq::empty()
    } else {
        concat_all(pieces.drop_last()) + pieces.last()
    }
}

/// Each piece is non-empty, holds a `;` at most as its last character, and all
/// pieces but the last end with `;`.
pub open spec fn is_statement_split(pieces: Seq<Seq<char>>) -> bool {
    forall|k: int|
        0 <= k < pieces.len() ==> {
            &&& #[trigger] pieces[k].len() > 0
            &&& forall|m: int| 0 <= m < pieces[k].len() - 1 ==> pieces[k][m] != ';'
            &&& k < pieces.len() - 1 ==> pieces[k].last() == ';'
        }
}

proof fn lemma_concat_push(pieces: Seq<Seq<char>>, p: Seq<char>)
    ensures
        concat_all(pieces.push(p)) == concat_all(pieces) + p,
{
    assert(pieces.push(p).drop_last() =~= pieces);
}

/// Cuts `text` after every `;`, keeping the `;` at the end of the statement it
/// closes; trailing text without a `;` forms a last statement when non-empty.
pub fn get_stmt_blocks(text: &str) -> (r: Vec<String>)
    ensures
        concat_all(strs(r@)) == text@,
        is_statement_split(strs(r@)),
{
    let cs = chars_of(text);
    let mut pieces: Vec<String> = Vec::new();
    let mut cur = String::new();
    let mut i: usize = 0;
    while i < cs.len()
        invariant
            cs@ == text@,
            i <= cs@.len(),
            concat_all(strs(pieces@)) + cur@ == text@.take(i as int),
            forall|m: int| 0 <= m < cur@.len() ==> cur@[m] != ';',
            forall|k: int|
                0 <= k < pieces@.len() ==> {
                    &&& #[trigger] pieces@[k]@.len() > 0
                    &&& forall|m: int| 0 <= m < pieces@[k]@.len() - 1 ==> pieces@[k]@[m] != ';'
                    &&& pieces@[k]@.last() == ';'
                },
        decreases cs.len() - i,
    {
        let c = cs[i];
        assert(text@.take(i + 1) =~= text@.take(i as int).push(c));
        cur.push(c);
        if c == ';' {
            let ghost before = pieces@;
            let ghost piece = cur@;
            proof {
                lemma_concat_push(strs(pieces@), cur@);
            }
            pieces.push(cur);
            assert(strs(pieces@) =~= strs(before).push(piece));
            cur = String::new();
            assert(concat_all(strs(pieces@)) + cur@ =~= text@.take(i + 1));
        }
        i += 1;
    }
    assert(text@.take(i as int) =~= text@);
    if !cur.as_str().is_empty() {
        let ghost before = pieces@;
        let ghost piece = cur@;
        proof {
            lemma_concat_push(strs(pieces@), cur@);
        }
        pieces.push(cur);
        assert(strs(pieces@) =~= strs(before).push(piece));
    }
    pieces
}

/// Token separators: a newline or a single space.
pub open spec fn is_separator(c: char) -> bool {
    c == '\n' || c == ' '
}

/// The words of `s` between separators, in order; consecutive separators yield
/// empty words, and there is always one word more than there are separators.
pub open spec fn words(s: Seq<char>) -> Seq<Seq<char>>
    decreases s.len(),
{
    if s.len() == 0 {
        seq![Seq::empty()]
    } else {
        let w = words(s.drop_last());
        if is_separator(s.last()) {
            w.push(Seq::empty())
        } else {
            w.update(w.len() - 1, w.last().push(s.last()))
        }
    }
}

/// The lowercase tokens of a statement.
pub open spec fn tokens_of(s: Seq<char>) -> Seq<Seq<char>> {
    words(s).map_values(|w: Seq<char>| lower_of(w))
}

/// The words of `stmt` as written, before lowercasing.
fn split_words(stmt: &str) -> (r: Vec<String>)
    ensures
        strs(r@) == words(stmt@),
{
    let cs = chars_of(stmt);
    let mut done: Vec<String> = Vec::new();
    let mut cur = String::new();
    let mut i: usize = 0;
    while i < cs.len()
        invariant
            cs@ == stmt@,
            i <= cs@.len(),
            words(stmt@.take(i as int)) == strs(done@).push(cur@),
        decreases cs.len() - i,
    {
        let c = cs[i];
        let ghost prefix = stmt@.take(i + 1);
        assert(prefix.drop_last() =~= stmt@.take(i as int));
        if c == '\n' || c == ' ' {
            let ghost before = done@;
            let ghost word = cur@;
            done.push(cur);
            cur = String::new();
            assert(strs(done@) =~= strs(before).push(word));
            assert(words(prefix) =~= strs(done@).push(cur@));
        } else {
            let ghost word = cur@;
            cur.push(c);
            assert(words(prefix) =~= strs(done@).push(cur@));
        }
        i += 1;
    }
    assert(stmt@.take(i as int) =~= stmt@);
    let ghost before = done@;
    let ghost word = cur@;
    done.push(cur);
    assert(strs(done@) =~= strs(before).push(word));
    done
}

/// Splits a statement on newlines and single spaces into lowercase tokens;
/// consecutive separators give empty tokens.
pub fn split_stmt_string(stmt: String) -> (r: Vec<String>)
    ensures
        strs(r@) == tokens_of(stmt@),
{
    let raw = split_words(stmt.as_str());
    let mut r: Vec<String> = Vec::new();
    let mut i: usize = 0;
    while i < raw.len()
        invariant
            strs(raw@) == words(stmt@),
            i <= raw@.len(),
            r@.len() == i,
            forall|k: int| 0 <= k < i ==> #[trigger] r@[k]@ == lower_of(raw@[k]@),
        decreases raw.len() - i,
    {
        r.push(lowercase(raw[i].as_str()));
        i += 1;
    }
    assert(strs(r@) =~= tokens_of(stmt@));
    r
}

} // verus!
