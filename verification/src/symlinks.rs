//! The `symlinks` section: a mapping from link path to target path.
//! Grammar: `symlinks { <string> => <string>, ... }`, read as
//! `link => original`. Link paths must be unique within one section;
//! a repeated link path fails with a duplicate-symlink diagnostic
//! pointing at the second occurrence of the key.

use vstd::prelude::*;

verus! {

use crate::diag::ErrorKind;
use crate::diag::ErrorKindV;
use crate::diag::ErrorV;
use crate::diag::ParseError;
use crate::lex::chars_eq;
use crate::lex::copy_chars;
use crate::lex::expect;
use crate::lex::expect_arrow;
use crate::lex::kw_symlinks;
use crate::lex::parse_string;
use crate::lex::skip_ws;
use crate::lex::spec_expect;
use crate::lex::spec_expect_arrow;
use crate::lex::spec_expect_kw;
use crate::lex::spec_parse_string;
use crate::lex::spec_skip_ws;
use crate::lex::word_end;
use crate::lex::word_is_symlinks;

/// One symlink declaration: the link path, the target it points at, and
/// the offset of the link literal (for diagnostics).
#[derive(Debug, PartialEq, Eq)]
pub struct Symlink {
    pub link: Vec<char>,
    pub original: Vec<char>,
    pub pos: usize,
}

/// Mathematical model of a [`Symlink`].
pub ghost struct SymlinkV {
    pub link: Seq<char>,
    pub original: Seq<char>,
    pub pos: int,
}

impl View for Symlink {
    type V = SymlinkV;

    open spec fn view(&self) -> SymlinkV {
        SymlinkV { link: self.link@, original: self.original@, pos: self.pos as int }
    }
}

impl DeepView for Symlink {
    type V = SymlinkV;

    open spec fn deep_view(&self) -> SymlinkV {
        self.view()
    }
}

/// `<string> => <string>`: a link path, the arrow, and the target path.
pub open spec fn spec_parse_symlink(s: Seq<char>, pos: int) -> Result<(SymlinkV, int), ErrorV> {
    let p = spec_skip_ws(s, pos);
    match spec_parse_string(s, pos) {
        Ok((link, p2)) => match spec_expect_arrow(s, p2) {
            Ok(p3) => match spec_parse_string(s, p3) {
                Ok((original, p4)) => Ok((SymlinkV { link, original, pos: p }, p4)),
                Err(e) => Err(e),
            },
            Err(e) => Err(e),
        },
        Err(e) => Err(e),
    }
}

impl Symlink {
    /// Parse one symlink declaration starting at `pos`.
    pub fn parse(s: &Vec<char>, pos: usize) -> (r: Result<(Symlink, usize), ParseError>)
        requires
            pos <= s@.len(),
        ensures
            match r {
                Ok(t) => spec_parse_symlink(s@, pos as int) == Ok::<(SymlinkV, int), ErrorV>(
                    (t.0@, t.1 as int),
                ) && pos < t.1 <= s@.len(),
                Err(e) => spec_parse_symlink(s@, pos as int) == Err::<(SymlinkV, int), ErrorV>(e@),
            },
    {
        let p = skip_ws(s, pos);
        let (link, p2) = match parse_string(s, pos) {
            Ok(t) => t,
            Err(e) => {
                return Err(e);
            },
        };
        let p3 = match expect_arrow(s, p2) {
            Ok(p3) => p3,
            Err(e) => {
                return Err(e);
            },
        };
        match parse_string(s, p3) {
            Ok((original, p4)) => Ok((Symlink { link, original, pos: p }, p4)),
            Err(e) => Err(e),
        }
    }
}

/// A comma-separated symlink list closed by `}`, with an optional
/// trailing comma. `acc` holds the declarations parsed so far.
pub open spec fn spec_parse_symlink_list(s: Seq<char>, pos: int, acc: Seq<SymlinkV>) -> Result<
    (Seq<SymlinkV>, int),
    ErrorV,
>
    decreases s.len() - pos,
    when 0 <= pos <= s.len()
{
    let p = spec_skip_ws(s, pos);
    if p < s.len() && s[p] == '}' {
        Ok((acc, p + 1))
    } else {
        match spec_parse_symlink(s, pos) {
            Ok((v, p2)) => {
                let p3 = spec_skip_ws(s, p2);
                if p3 < s.len() && s[p3] == ',' {
                    // the bound check keeps the recursion well-founded; a
                    // successful scan always advances, so it cannot fail
                    if pos < p3 + 1 <= s.len() {
                        spec_parse_symlink_list(s, p3 + 1, acc.push(v))
                    } else {
                        Err(ErrorV { kind: ErrorKindV::Grammar, pos: pos })
                    }
                } else if p3 < s.len() && s[p3] == '}' {
                    Ok((acc.push(v), p3 + 1))
                } else {
                    Err(ErrorV { kind: ErrorKindV::Grammar, pos: p3 })
                }
            },
            Err(e) => Err(e),
        }
    }
}

/// Parse a brace-closed, comma-separated symlink list.
pub fn parse_symlink_list(s: &Vec<char>, pos: usize) -> (r: Result<
    (Vec<Symlink>, usize),
    ParseError,
>)
    requires
        pos <= s@.len(),
    ensures
        match r {
            Ok(t) => spec_parse_symlink_list(s@, pos as int, Seq::empty()) == Ok::<
                (Seq<SymlinkV>, int),
                ErrorV,
            >((t.0.deep_view(), t.1 as int)) && pos < t.1 <= s@.len(),
            Err(e) => spec_parse_symlink_list(s@, pos as int, Seq::empty()) == Err::<
                (Seq<SymlinkV>, int),
                ErrorV,
            >(e@),
        },
{
    let mut acc: Vec<Symlink> = Vec::new();
    let mut cur: usize = pos;
    proof {
        assert(acc.deep_view() =~~= Seq::<SymlinkV>::empty());
    }
    loop
        invariant
            pos <= cur <= s@.len(),
            spec_parse_symlink_list(s@, pos as int, Seq::empty()) == spec_parse_symlink_list(
                s@,
                cur as int,
                acc.deep_view(),
            ),
        decreases s@.len() - cur,
    {
        let p = skip_ws(s, cur);
        if p < s.len() && s[p] == '}' {
            return Ok((acc, p + 1));
        }
        match Symlink::parse(s, cur) {
            Err(e) => {
                return Err(e);
            },
            Ok((v, p2)) => {
                let p3 = skip_ws(s, p2);
                if p3 < s.len() && s[p3] == ',' {
                    let ghost old_acc = acc.deep_view();
                    let ghost vv = v@;
                    acc.push(v);
                    proof {
                        assert(acc.deep_view() =~~= old_acc.push(vv));
                    }
                    cur = p3 + 1;
                } else if p3 < s.len() && s[p3] == '}' {
                    let ghost old_acc = acc.deep_view();
                    let ghost vv = v@;
                    acc.push(v);
                    proof {
                        assert(acc.deep_view() =~~= old_acc.push(vv));
                    }
                    return Ok((acc, p3 + 1));
                } else {
                    return Err(ParseError { kind: ErrorKind::Grammar, pos: p3 });
                }
            },
        }
    }
}

/// Does an earlier declaration use the same link path as the one at `j`?
pub open spec fn has_earlier_link(links: Seq<SymlinkV>, j: int) -> bool {
    exists|i: int| 0 <= i < j && links[i].link == links[j].link
}

/// The first index at or after `j` whose link path already occurred.
pub open spec fn spec_first_dup_from(links: Seq<SymlinkV>, j: int) -> Option<int>
    decreases links.len() - j,
    when 0 <= j <= links.len()
{
    if j >= links.len() {
        None
    } else if has_earlier_link(links, j) {
        Some(j)
    } else {
        spec_first_dup_from(links, j + 1)
    }
}

/// The index of the first repeated link path, if any: the declaration at
/// that index repeats the link path of an earlier one.
pub open spec fn spec_first_dup(links: Seq<SymlinkV>) -> Option<int> {
    spec_first_dup_from(links, 0)
}

proof fn lemma_first_dup_from(links: Seq<SymlinkV>, j: int)
    requires
        0 <= j <= links.len(),
    ensures
        match spec_first_dup_from(links, j) {
            None => forall|k: int| j <= k < links.len() ==> !has_earlier_link(links, k),
            Some(m) => j <= m < links.len() && has_earlier_link(links, m) && forall|k: int|
                j <= k < m ==> !has_earlier_link(links, k),
        },
    decreases links.len() - j,
{
    if j < links.len() && !has_earlier_link(links, j) {
        lemma_first_dup_from(links, j + 1);
    }
}

/// Duplicate detection is exact: when it reports no index, all link
/// paths are pairwise distinct; when it reports an index, that index
/// repeats an earlier link path and is the first to do so.
pub proof fn lemma_first_dup_characterization(links: Seq<SymlinkV>)
    ensures
        match spec_first_dup(links) {
            None => forall|i: int, j: int|
                0 <= i < j < links.len() ==> (#[trigger] links[i]).link != (
                #[trigger] links[j]).link,
            Some(m) => 0 <= m < links.len() && has_earlier_link(links, m) && forall|k: int|
                0 <= k < m ==> !has_earlier_link(links, k),
        },
{
    lemma_first_dup_from(links, 0);
    if spec_first_dup(links) is None {
        assert forall|i: int, j: int| 0 <= i < j < links.len() implies (#[trigger] links[i]).link
            != (#[trigger] links[j]).link by {
            assert(!has_earlier_link(links, j));
        }
    }
}

/// The mapping a symlinks section denotes: link path to target path,
/// later declarations inserted last.
pub open spec fn links_map(links: Seq<SymlinkV>) -> Map<Seq<char>, Seq<char>>
    decreases links.len(),
{
    if links.len() == 0 {
        Map::empty()
    } else {
        links_map(links.drop_last()).insert(links.last().link, links.last().original)
    }
}

/// With all link paths distinct, every declaration appears in the
/// mapping with its own target, unmodified.
pub proof fn lemma_links_map_complete(links: Seq<SymlinkV>)
    requires
        forall|i: int, j: int|
            0 <= i < j < links.len() ==> (#[trigger] links[i]).link != (#[trigger] links[j]).link,
    ensures
        forall|i: int|
            0 <= i < links.len() ==> links_map(links).contains_pair(
                (#[trigger] links[i]).link,
                links[i].original,
            ),
    decreases links.len(),
{
    if links.len() > 0 {
        let prefix = links.drop_last();
        lemma_links_map_complete(prefix);
        assert forall|i: int| 0 <= i < links.len() implies links_map(links).contains_pair(
            (#[trigger] links[i]).link,
            links[i].original,
        ) by {
            if i < links.len() - 1 {
                assert(prefix[i] == links[i]);
                assert(links_map(prefix).contains_pair(links[i].link, links[i].original));
                assert(links[i].link != links.last().link);
            }
        }
    }
}


/// Well-formedness of a symlinks section: link paths pairwise distinct.
pub open spec fn wf_symlinks(links: Seq<SymlinkV>) -> bool {
    forall|i: int, j: int|
        0 <= i < j < links.len() ==> (#[trigger] links[i]).link != (#[trigger] links[j]).link
}

/// Every successfully parsed symlinks section is well-formed: its link
/// paths are pairwise distinct, and every declaration appears in the
/// denoted mapping with its own target, unmodified.
pub proof fn lemma_parsed_symlinks_wf(s: Seq<char>, pos: int)
    ensures
        match spec_parse_symlinks(s, pos) {
            Ok(t) => wf_symlinks(t.0.links) && forall|i: int|
                0 <= i < t.0.links.len() ==> links_map(t.0.links).contains_pair(
                    (#[trigger] t.0.links[i]).link,
                    t.0.links[i].original,
                ),
            Err(_) => true,
        },
{
    match spec_parse_symlinks(s, pos) {
        Ok(t) => {
            lemma_first_dup_characterization(t.0.links);
            lemma_links_map_complete(t.0.links);
        },
        Err(_) => {},
    }
}

/// A parsed `symlinks` section, its link paths unique.
#[derive(Debug, PartialEq, Eq)]
pub struct Symlinks {
    pub links: Vec<Symlink>,
}

/// Mathematical model of a [`Symlinks`] section.
pub ghost struct SymlinksV {
    pub links: Seq<SymlinkV>,
}

impl View for Symlinks {
    type V = SymlinksV;

    open spec fn view(&self) -> SymlinksV {
        SymlinksV { links: self.links.deep_view() }
    }
}

impl DeepView for Symlinks {
    type V = SymlinksV;

    open spec fn deep_view(&self) -> SymlinksV {
        self.view()
    }
}

/// `symlinks { <link> => <original>, ... }`: the keyword, the list, and
/// the uniqueness check over link paths. A repeated link path fails with
/// a duplicate-symlink diagnostic carrying the repeated path and the
/// offset of its second occurrence.
pub open spec fn spec_parse_symlinks(s: Seq<char>, pos: int) -> Result<(SymlinksV, int), ErrorV> {
    match spec_expect_kw(s, pos, kw_symlinks()) {
        Ok(p) => match spec_expect(s, p, '{') {
            Ok(p2) => match spec_parse_symlink_list(s, p2, Seq::empty()) {
                Ok((links, p3)) => match spec_first_dup(links) {
                    Some(j) => Err(
                        ErrorV {
                            kind: ErrorKindV::DuplicateSymlink(links[j].link),
                            pos: links[j].pos,
                        },
                    ),
                    None => Ok((SymlinksV { links }, p3)),
                },
                Err(e) => Err(e),
            },
            Err(e) => Err(e),
        },
        Err(e) => Err(e),
    }
}

impl Symlinks {
    /// Parse a `symlinks` section starting at `pos`.
    #[verifier::loop_isolation(false)]
    pub fn parse(s: &Vec<char>, pos: usize) -> (r: Result<(Symlinks, usize), ParseError>)
        requires
            pos <= s@.len(),
        ensures
            match r {
                Ok(t) => spec_parse_symlinks(s@, pos as int) == Ok::<(SymlinksV, int), ErrorV>(
                    (t.0@, t.1 as int),
                ) && pos < t.1 <= s@.len() && wf_symlinks(t.0@.links),
                Err(e) => spec_parse_symlinks(s@, pos as int) == Err::<(SymlinksV, int), ErrorV>(
                    e@,
                ),
            },
    {
        let p0 = skip_ws(s, pos);
        let e0 = word_end(s, p0);
        if !word_is_symlinks(s, p0, e0) {
            return Err(ParseError { kind: ErrorKind::Grammar, pos: p0 });
        }
        let p = match expect(s, e0, '{') {
            Ok(p) => p,
            Err(e) => {
                return Err(e);
            },
        };
        let (links, p2) = match parse_symlink_list(s, p) {
            Ok(t) => t,
            Err(e) => {
                return Err(e);
            },
        };
        let ghost dv = links.deep_view();
        let mut j: usize = 0;
        while j < links.len()
            invariant
                j <= links@.len(),
                dv == links.deep_view(),
                spec_first_dup(dv) == spec_first_dup_from(dv, j as int),
            decreases links@.len() - j,
        {
            proof {
                assert(dv[j as int] == links@[j as int]@);
            }
            let mut i: usize = 0;
            while i < j
                invariant
                    i <= j < links@.len(),
                    dv == links.deep_view(),
                    dv[j as int] == links@[j as int]@,
                    spec_first_dup(dv) == spec_first_dup_from(dv, j as int),
                    forall|k: int| 0 <= k < i ==> (#[trigger] dv[k]).link != dv[j as int].link,
                decreases j - i,
            {
                proof {
                    assert(dv[i as int] == links@[i as int]@);
                }
                if chars_eq(&links[i].link, &links[j].link) {
                    let key = copy_chars(&links[j].link);
                    proof {
                        assert(has_earlier_link(dv, j as int));
                        assert(spec_first_dup(dv) == Some(j as int));
                        assert(key@ == dv[j as int].link);
                    }
                    return Err(
                        ParseError { kind: ErrorKind::DuplicateSymlink(key), pos: links[j].pos },
                    );
                }
                i = i + 1;
            }
            proof {
                assert(!has_earlier_link(dv, j as int));
            }
            j = j + 1;
        }
        proof {
            assert(spec_first_dup(dv) is None);
            lemma_first_dup_characterization(dv);
        }
        Ok((Symlinks { links }, p2))
    }
}

} // verus!
