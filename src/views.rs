//! Extraction of view names from migration sources and the registry of views.

use vstd::prelude::*;

use crate::matching::strs;
use crate::text::{contains_str, has_substr, lower_of, lowercase};

verus! {

/// The pattern a view definition is recognised by: the word `view`, a name
/// without white space, and the word `as`, separated by single spaces.
pub const VIEW_PATTERN: &'static str = "view ([^\\s]+) as";

/// What the first capture group of the leftmost match of regular expression
/// `pattern` in `hay` holds; `None` without a match or for an invalid pattern.
pub uninterp spec fn first_group_of(pattern: Seq<char>, hay: Seq<char>) -> Option<Seq<char>>;

/// The character sequence held by an optional string.
pub open spec fn opt_view(o: Option<String>) -> Option<Seq<char>> {
    match o {
        Some(s) => Some(s@),
        None => None,
    }
}

/// Relies on `regex::Regex::new` and `regex::Regex::captures`: the text of
/// capture group 1 of the leftmost-first match.
#[verifier::external_body]
fn first_group(pattern: &str, hay: &str) -> (r: Option<String>)
    ensures
        opt_view(r) == first_group_of(pattern@, hay@),
{
    let re = match regex::Regex::new(pattern) {
        Ok(re) => re,
        Err(_) => return None,
    };
    let caps = re.captures(hay)?;
    let group = caps.get(1)?;
    Some(group.as_str().to_string())
}

/// Why a source that mentions a view yields no view name.
#[derive(Clone, Copy, Debug, PartialEq, Eq, Structural)]
pub enum ViewError {
    /// The text holds no `view <name> as`.
    ParseFailure,
}

/// The view name of `sql`: the name in the first `view <name> as`.
pub open spec fn view_name_of(sql: Seq<char>) -> Option<Seq<char>> {
    first_group_of(VIEW_PATTERN@, sql)
}

/// Extracts the name between `view ` and ` as` at the first place where such a
/// definition occurs; quotes around the name are kept.
pub fn extract_view_name(sql_string: &str) -> (r: Result<String, ViewError>)
    ensures
        match view_name_of(sql_string@) {
            Some(name) => r is Ok && r->Ok_0@ == name,
            None => r == Err::<String, ViewError>(ViewError::ParseFailure),
        },
{
    match first_group(VIEW_PATTERN, sql_string) {
        Some(name) => Ok(name),
        None => Err(ViewError::ParseFailure),
    }
}

/// The lowercased text of a source mentions a view.
pub open spec fn mentions_view(lowered: Seq<char>) -> bool {
    has_substr(lowered, "view"@)
}

/// The view a source defines: the name extracted from its lowercased text when
/// that text mentions a view.
pub open spec fn defined_view(text: Seq<char>) -> Option<Seq<char>> {
    let lowered = lower_of(text);
    if mentions_view(lowered) {
        view_name_of(lowered)
    } else {
        None
    }
}

/// The names of the views that `texts` define.
pub open spec fn registry(texts: Seq<Seq<char>>) -> Set<Seq<char>> {
    Set::new(|name: Seq<char>| exists|i: int| 0 <= i < texts.len() && defined_view(texts[i]) == Some(name))
}

/// The positions, in increasing order, of the sources of `texts` that mention a
/// view but name none.
pub open spec fn unparsed_sources(texts: Seq<Seq<char>>) -> Seq<usize>
    decreases texts.len(),
{
    if texts.len() == 0 {
        Seq::empty()
    } else {
        let rest = unparsed_sources(texts.drop_last());
        let lowered = lower_of(texts.last());
        if mentions_view(lowered) && view_name_of(lowered) is None {
            rest.push((texts.len() - 1) as usize)
        } else {
            rest
        }
    }
}

/// The views found over a set of migration sources, and the sources that mention
/// a view without naming one.
pub struct ViewScan {
    pub views: Vec<String>,
    pub unparsed: Vec<usize>,
}

impl ViewScan {
    /// Each view is held once.
    pub open spec fn wf(&self) -> bool {
        strs(self.views@).no_duplicates()
    }

    /// A scan over no source.
    pub fn new() -> (r: ViewScan)
        ensures
            r.wf(),
            r.views@.len() == 0,
            r.unparsed@.len() == 0,
    {
        ViewScan { views: Vec::new(), unparsed: Vec::new() }
    }

    /// Records the source at `index`, given its lowercased text and the outcome
    /// of extracting a view name from that text.
    pub fn record(&mut self, index: usize, lowered: &str, name: Result<String, ViewError>)
        requires
            old(self).wf(),
        ensures
            final(self).wf(),
            !mentions_view(lowered@) ==> *final(self) == *old(self),
            mentions_view(lowered@) ==> match name {
                Ok(n) => {
                    &&& final(self).unparsed == old(self).unparsed
                    &&& strs(final(self).views@) == if strs(old(self).views@).contains(n@) {
                        strs(old(self).views@)
                    } else {
                        strs(old(self).views@).push(n@)
                    }
                },
                Err(_) => {
                    &&& final(self).views == old(self).views
                    &&& final(self).unparsed@ == old(self).unparsed@.push(index)
                },
            },
    {
        if !contains_str(lowered, "view") {
            return;
        }
        let ghost v0 = strs(self.views@);
        match &name {
            Ok(n) => {
                let mut i: usize = 0;
                while i < self.views.len()
                    invariant
                        *self == *old(self),
                        v0 == strs(self.views@),
                        name == Ok::<String, ViewError>(*n),
                        mentions_view(lowered@),
                        old(self).wf(),
                        i <= self.views@.len(),
                        forall|k: int| 0 <= k < i ==> self.views@[k]@ != n@,
                    decreases self.views.len() - i,
                {
                    if self.views[i] == *n {
                        assert(v0[i as int] == n@);
                        assert(v0.contains(n@));
                        return;
                    }
                    i += 1;
                }
                let ghost before = strs(self.views@);
                assert(!before.contains(n@));
                let ghost name = n@;
                self.views.push(n.clone());
                assert(strs(self.views@) =~= before.push(name));
            },
            Err(_) => {
                self.unparsed.push(index);
            },
        }
    }
}

/// Gathers the view names that `sql_texts` define: each text is lowercased and,
/// when it mentions a view, its view name is extracted; texts that mention a
/// view without naming one are listed by position.
pub fn get_views(sql_texts: &Vec<String>) -> (r: ViewScan)
    ensures
        r.wf(),
        strs(r.views@).to_set() == registry(strs(sql_texts@)),
        r.unparsed@ == unparsed_sources(strs(sql_texts@)),
{
    let ghost texts = strs(sql_texts@);
    let mut scan = ViewScan::new();
    let mut i: usize = 0;
    while i < sql_texts.len()
        invariant
            texts == strs(sql_texts@),
            i <= sql_texts@.len(),
            scan.wf(),
            strs(scan.views@).to_set() == registry(texts.take(i as int)),
            scan.unparsed@ == unparsed_sources(texts.take(i as int)),
        decreases sql_texts.len() - i,
    {
        let ghost prefix = texts.take(i + 1);
        assert(prefix.drop_last() =~= texts.take(i as int));
        let ghost old_views = strs(scan.views@);
        let lowered = lowercase(sql_texts[i].as_str());
        let name = extract_view_name(lowered.as_str());
        scan.record(i, lowered.as_str(), name);
        proof {
            assert(prefix.last() == texts[i as int]);
            old_views.lemma_push_to_set_commute(lower_of(texts[i as int]));
            if let Some(n) = view_name_of(lower_of(texts[i as int])) {
                old_views.lemma_push_to_set_commute(n);
            }
            assert(strs(scan.views@).to_set() =~= registry(prefix)) by {
                assert forall|t: Seq<char>| registry(prefix).contains(t) implies
                    strs(scan.views@).to_set().contains(t) by {
                    let j = choose|j: int| 0 <= j < prefix.len() && defined_view(prefix[j]) == Some(t);
                    if j < i {
                        assert(registry(texts.take(i as int)).contains(t)) by {
                            assert(texts.take(i as int)[j] == prefix[j]);
                        }
                    }
                }
                assert forall|t: Seq<char>| strs(scan.views@).to_set().contains(t) implies
                    registry(prefix).contains(t) by {
                    if old_views.to_set().contains(t) {
                        let j = choose|j: int| 0 <= j < i && defined_view(texts.take(i as int)[j]) == Some(t);
                        assert(prefix[j] == texts.take(i as int)[j]);
                    } else {
                        assert(defined_view(prefix[i as int]) == Some(t));
                    }
                }
            }
        }
        i += 1;
    }
    assert(texts.take(i as int) =~= texts);
    scan
}

} // verus!
