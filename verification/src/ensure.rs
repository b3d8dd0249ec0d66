//! The `ensure` section: directories to guarantee exist. Grammar:
//! `ensure { <string>, ... }`. Each path is classified at parse time:
//! a leading `~` marks a path relative to the user's home directory,
//! everything else is treated as absolute. The two lists partition the
//! source list exactly, each keeping source order.

use vstd::prelude::*;

verus! {

use crate::diag::ErrorKind;
use crate::diag::ErrorV;
use crate::diag::ParseError;
use crate::lex::copy_chars;
use crate::lex::expect;
use crate::lex::kw_ensure;
use crate::lex::parse_string_list;
use crate::lex::skip_ws;
use crate::lex::spec_expect;
use crate::lex::spec_expect_kw;
use crate::lex::spec_parse_string_list;
use crate::lex::word_end;
use crate::lex::word_is_ensure;

/// A parsed `ensure` section.
#[derive(Debug, PartialEq, Eq)]
pub struct Ensure {
    pub absolute_paths: Vec<Vec<char>>,
    pub home_paths: Vec<Vec<char>>,
}

/// Mathematical model of an [`Ensure`] section.
pub ghost struct EnsureV {
    pub absolute_paths: Seq<Seq<char>>,
    pub home_paths: Seq<Seq<char>>,
}

impl View for Ensure {
    type V = EnsureV;

    open spec fn view(&self) -> EnsureV {
        EnsureV {
            absolute_paths: self.absolute_paths.deep_view(),
            home_paths: self.home_paths.deep_view(),
        }
    }
}

impl DeepView for Ensure {
    type V = EnsureV;

    open spec fn deep_view(&self) -> EnsureV {
        self.view()
    }
}

/// A path given relative to the user's home directory, marked by a
/// leading `~` in source text.
pub open spec fn is_home_path(p: Seq<char>) -> bool {
    p.len() > 0 && p[0] == '~'
}

/// The home-relative entries of `l`, in source order.
pub open spec fn home_part(l: Seq<Seq<char>>) -> Seq<Seq<char>>
    decreases l.len(),
{
    if l.len() == 0 {
        Seq::empty()
    } else if is_home_path(l.last()) {
        home_part(l.drop_last()).push(l.last())
    } else {
        home_part(l.drop_last())
    }
}

/// The entries of `l` without a leading `~`, in source order.
pub open spec fn absolute_part(l: Seq<Seq<char>>) -> Seq<Seq<char>>
    decreases l.len(),
{
    if l.len() == 0 {
        Seq::empty()
    } else if !is_home_path(l.last()) {
        absolute_part(l.drop_last()).push(l.last())
    } else {
        absolute_part(l.drop_last())
    }
}

/// Path classification is an exact partition: every entry with a leading
/// `~` stands in the home list and every other entry in the absolute
/// list, nothing is lost or duplicated — together the two lists hold
/// exactly the entries of the source list — and each list keeps source
/// order, being the subsequence of entries of its class.
pub proof fn lemma_partition_exact(l: Seq<Seq<char>>)
    ensures
        home_part(l).len() + absolute_part(l).len() == l.len(),
        forall|i: int| 0 <= i < home_part(l).len() ==> is_home_path(#[trigger] home_part(l)[i]),
        forall|i: int|
            0 <= i < absolute_part(l).len() ==> !is_home_path(#[trigger] absolute_part(l)[i]),
        home_part(l).to_multiset().add(absolute_part(l).to_multiset()) == l.to_multiset(),
    decreases l.len(),
{
    broadcast use vstd::seq_lib::group_to_multiset_ensures;

    if l.len() == 0 {
        assert(home_part(l).to_multiset().add(absolute_part(l).to_multiset()) =~= l.to_multiset());
    } else {
        let prefix = l.drop_last();
        let x = l.last();
        lemma_partition_exact(prefix);
        assert(l =~= prefix.push(x));
        assert(l.to_multiset() == prefix.to_multiset().insert(x));
        if is_home_path(x) {
            assert(home_part(l) == home_part(prefix).push(x));
            assert(home_part(l).to_multiset() == home_part(prefix).to_multiset().insert(x));
            assert(home_part(l).to_multiset().add(absolute_part(l).to_multiset())
                =~= l.to_multiset());
            assert forall|i: int| 0 <= i < home_part(l).len() implies is_home_path(
                #[trigger] home_part(l)[i],
            ) by {
                if i < home_part(prefix).len() {
                    assert(home_part(l)[i] == home_part(prefix)[i]);
                }
            }
        } else {
            assert(absolute_part(l) == absolute_part(prefix).push(x));
            assert(absolute_part(l).to_multiset() == absolute_part(
                prefix,
            ).to_multiset().insert(x));
            assert(home_part(l).to_multiset().add(absolute_part(l).to_multiset())
                =~= l.to_multiset());
            assert forall|i: int| 0 <= i < absolute_part(l).len() implies !is_home_path(
                #[trigger] absolute_part(l)[i],
            ) by {
                if i < absolute_part(prefix).len() {
                    assert(absolute_part(l)[i] == absolute_part(prefix)[i]);
                }
            }
        }
    }
}

/// `ensure { <string>, ... }`: the keyword, a brace-closed string list,
/// and the partition of that list into absolute and home paths.
pub open spec fn spec_parse_ensure(s: Seq<char>, pos: int) -> Result<(EnsureV, int), ErrorV> {
    match spec_expect_kw(s, pos, kw_ensure()) {
        Ok(p) => match spec_expect(s, p, '{') {
            Ok(p2) => match spec_parse_string_list(s, p2, Seq::empty()) {
                Ok((l, p3)) => Ok(
                    (EnsureV { absolute_paths: absolute_part(l), home_paths: home_part(l) }, p3),
                ),
                Err(e) => Err(e),
            },
            Err(e) => Err(e),
        },
        Err(e) => Err(e),
    }
}

/// Partition a path list: entries with a leading `~` go to the home list,
/// the rest to the absolute list, each list keeping source order.
pub fn partition_paths(l: &Vec<Vec<char>>) -> (r: (Vec<Vec<char>>, Vec<Vec<char>>))
    ensures
        r.0.deep_view() == absolute_part(l.deep_view()),
        r.1.deep_view() == home_part(l.deep_view()),
{
    let mut absolute: Vec<Vec<char>> = Vec::new();
    let mut home: Vec<Vec<char>> = Vec::new();
    proof {
        assert(absolute.deep_view() =~~= absolute_part(l.deep_view().subrange(0, 0)));
        assert(home.deep_view() =~~= home_part(l.deep_view().subrange(0, 0)));
    }
    let mut i: usize = 0;
    while i < l.len()
        invariant
            i <= l@.len(),
            absolute.deep_view() == absolute_part(l.deep_view().subrange(0, i as int)),
            home.deep_view() == home_part(l.deep_view().subrange(0, i as int)),
        decreases l@.len() - i,
    {
        let x = copy_chars(&l[i]);
        let ghost pref = l.deep_view().subrange(0, i as int);
        proof {
            assert(x@ == l.deep_view()[i as int]);
            assert(l.deep_view().subrange(0, i as int + 1) =~= pref.push(x@));
            assert(pref.push(x@).drop_last() =~= pref);
        }
        if x.len() > 0 && x[0] == '~' {
            let ghost old_home = home.deep_view();
            home.push(x);
            proof {
                assert(home.deep_view() =~~= old_home.push(pref.push(x@).last()));
            }
        } else {
            let ghost old_abs = absolute.deep_view();
            absolute.push(x);
            proof {
                assert(absolute.deep_view() =~~= old_abs.push(pref.push(x@).last()));
            }
        }
        i = i + 1;
    }
    proof {
        assert(l.deep_view().subrange(0, l.deep_view().len() as int) =~= l.deep_view());
    }
    (absolute, home)
}

impl Ensure {
    /// Parse an `ensure` section starting at `pos`.
    pub fn parse(s: &Vec<char>, pos: usize) -> (r: Result<(Ensure, usize), ParseError>)
        requires
            pos <= s@.len(),
        ensures
            match r {
                Ok(t) => spec_parse_ensure(s@, pos as int) == Ok::<(EnsureV, int), ErrorV>(
                    (t.0@, t.1 as int),
                ) && pos < t.1 <= s@.len(),
                Err(e) => spec_parse_ensure(s@, pos as int) == Err::<(EnsureV, int), ErrorV>(e@),
            },
    {
        let p0 = skip_ws(s, pos);
        let e0 = word_end(s, p0);
        if !word_is_ensure(s, p0, e0) {
            return Err(ParseError { kind: ErrorKind::Grammar, pos: p0 });
        }
        let p = match expect(s, e0, '{') {
            Ok(p) => p,
            Err(e) => {
                return Err(e);
            },
        };
        match parse_string_list(s, p) {
            Ok((l, p2)) => {
                let (absolute_paths, home_paths) = partition_paths(&l);
                Ok((Ensure { absolute_paths, home_paths }, p2))
            },
            Err(e) => Err(e),
        }
    }
}

} // verus!
