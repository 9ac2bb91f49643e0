//! Deciding whether a statement creates or alters a table over a known view,
//! and filtering such statements out of a migration.

use vstd::prelude::*;

use crate::matching::{contains_seq, includes_sub_vec, strs};
use crate::statements::{split_stmt_string, tokens_of};
use crate::text::{trim, trimmed};

verus! {

/// The token pattern `[operation, "table", "\"view\""]`.
pub open spec fn template(operation: Seq<char>, view: Seq<char>) -> Seq<Seq<char>> {
    seq![operation, "table"@, seq!['"'] + view + seq!['"']]
}

/// Some view of `views` is the target of a `create table` or `alter table`
/// template within `tokens`.
pub open spec fn targets_view(tokens: Seq<Seq<char>>, views: Seq<Seq<char>>) -> bool {
    exists|k: int|
        0 <= k < views.len() && {
            ||| contains_seq(tokens, template("create"@, #[trigger] views[k]))
            ||| contains_seq(tokens, template("alter"@, views[k]))
        }
}

/// Builds the tokens `operation`, `table` and the view name in double quotes.
pub fn operation_stmt_template(operation: &str, view_name: &str) -> (r: Vec<String>)
    ensures
        strs(r@) == template(operation@, view_name@),
{
    let mut quoted = String::new();
    quoted.push('"');
    quoted.append(view_name);
    quoted.push('"');
    assert(quoted@ =~= seq!['"'] + view_name@ + seq!['"']);
    let mut r: Vec<String> = Vec::new();
    r.push(operation.to_owned());
    r.push("table".to_owned());
    r.push(quoted);
    assert(strs(r@) =~= template(operation@, view_name@));
    r
}

/// Decides, for tokens already split and lowercased, whether one of `views`
/// is created or altered as a table.
pub fn stmt_targets_view(tokens: &Vec<String>, views: &Vec<String>) -> (r: bool)
    ensures
        r == targets_view(strs(tokens@), strs(views@)),
{
    let mut i: usize = 0;
    while i < views.len()
        invariant
            i <= views@.len(),
            forall|k: int|
                0 <= k < i ==> {
                    &&& !contains_seq(strs(tokens@), template("create"@, #[trigger] strs(views@)[k]))
                    &&& !contains_seq(strs(tokens@), template("alter"@, strs(views@)[k]))
                },
        decreases views.len() - i,
    {
        let create = operation_stmt_template("create", views[i].as_str());
        if includes_sub_vec(tokens.as_slice(), create.as_slice()) {
            assert(strs(views@)[i as int] == views@[i as int]@);
            return true;
        }
        let alter = operation_stmt_template("alter", views[i].as_str());
        if includes_sub_vec(tokens.as_slice(), alter.as_slice()) {
            assert(strs(views@)[i as int] == views@[i as int]@);
            return true;
        }
        i += 1;
    }
    false
}

/// Decides whether `stmt` creates or alters a table named like one of `views`
/// (in double quotes), after splitting and lowercasing the statement.
pub fn find_table_stmt(stmt: String, views: Vec<String>) -> (r: bool)
    ensures
        r == targets_view(tokens_of(stmt@), strs(views@)),
{
    let tokens = split_stmt_string(stmt);
    stmt_targets_view(&tokens, &views)
}

/// The statements of `stmts` that target none of `views`, in their order.
pub open spec fn kept(stmts: Seq<Seq<char>>, views: Seq<Seq<char>>) -> Seq<Seq<char>>
    decreases stmts.len(),
{
    if stmts.len() == 0 {
        Seq::empty()
    } else {
        let rest = kept(stmts.drop_last(), views);
        if targets_view(tokens_of(stmts.last()), views) {
            rest
        } else {
            rest.push(stmts.last())
        }
    }
}

/// `lines` joined with a newline between each two.
pub open spec fn join_lines(lines: Seq<Seq<char>>) -> Seq<char>
    decreases lines.len(),
{
    if lines.len() == 0 {
        Seq::empty()
    } else if lines.len() == 1 {
        lines[0]
    } else {
        join_lines(lines.drop_last()) + seq!['\n'] + lines.last()
    }
}

/// Filtering is idempotent: the statements kept from a filtered sequence are
/// exactly that sequence, so a second pass with the same views changes nothing.
pub proof fn lemma_kept_idempotent(stmts: Seq<Seq<char>>, views: Seq<Seq<char>>)
    ensures
        kept(kept(stmts, views), views) == kept(stmts, views),
    decreases stmts.len(),
{
    if stmts.len() > 0 {
        lemma_kept_idempotent(stmts.drop_last(), views);
        let rest = kept(stmts.drop_last(), views);
        if !targets_view(tokens_of(stmts.last()), views) {
            assert(rest.push(stmts.last()).drop_last() =~= rest);
        }
    }
}

/// Joins with newlines the statements that create or alter no table over one
/// of `views`, and trims white space from both ends of the result.
pub fn filter_sql_string(stmts: &mut Vec<String>, views: Vec<String>) -> (r: String)
    ensures
        *final(stmts) == *old(stmts),
        r@ == trimmed(join_lines(kept(strs(old(stmts)@), strs(views@)))),
{
    let ghost all = strs(stmts@);
    let mut filtered: Vec<String> = Vec::new();
    let mut i: usize = 0;
    while i < stmts.len()
        invariant
            all == strs(stmts@),
            i <= stmts@.len(),
            strs(filtered@) == kept(all.take(i as int), strs(views@)),
        decreases stmts.len() - i,
    {
        assert(all.take(i + 1).drop_last() =~= all.take(i as int));
        let tokens = split_stmt_string(stmts[i].clone());
        if !stmt_targets_view(&tokens, &views) {
            let ghost before = filtered@;
            filtered.push(stmts[i].clone());
            assert(strs(filtered@) =~= strs(before).push(all[i as int]));
        }
        i += 1;
    }
    assert(all.take(i as int) =~= all);
    let mut joined = String::new();
    let mut j: usize = 0;
    while j < filtered.len()
        invariant
            j <= filtered@.len(),
            joined@ == join_lines(strs(filtered@).take(j as int)),
        decreases filtered.len() - j,
    {
        let ghost lines = strs(filtered@).take(j + 1);
        assert(lines.drop_last() =~= strs(filtered@).take(j as int));
        if j > 0 {
            joined.push('\n');
        }
        joined.append(filtered[j].as_str());
        assert(joined@ =~= join_lines(lines));
        j += 1;
    }
    assert(strs(filtered@).take(j as int) =~= strs(filtered@));
    trim(joined.as_str())
}

} // verus!
