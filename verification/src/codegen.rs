//! Lowering: the plan builder. A validated manifest is mapped, section by
//! section, into the ordered sequence of action descriptors handed to the
//! external runtime executor. The mapping is structure-preserving: one
//! action per section, in source order, with no reordering, filtering or
//! merging, and it has no failure modes of its own.

use vstd::prelude::*;

verus! {

use crate::cargo::Cargo;
use crate::ensure::Ensure;
use crate::package::Package;
use crate::package::PackageV;
use crate::parse::Installer;
use crate::parse::Section;
use crate::parse::SectionV;
use crate::script::Script;
use crate::symlinks::Symlink;
use crate::symlinks::SymlinkV;
use crate::symlinks::Symlinks;

/// One action descriptor: the lowered, runtime-facing form of a section.
/// The runtime chooses among the per-manager package names at run time;
/// the compiler only carries them over.
#[derive(Debug, PartialEq, Eq)]
pub enum Action {
    CargoInstall { crates: Vec<Vec<char>> },
    EnsureDirs { absolute_paths: Vec<Vec<char>>, home_paths: Vec<Vec<char>> },
    Script { path: Vec<char> },
    Packages { packages: Vec<Package> },
    Symlinks { links: Vec<Symlink> },
}

/// Mathematical model of an [`Action`].
pub ghost enum ActionV {
    CargoInstall { crates: Seq<Seq<char>> },
    EnsureDirs { absolute_paths: Seq<Seq<char>>, home_paths: Seq<Seq<char>> },
    Script { path: Seq<char> },
    Packages { packages: Seq<PackageV> },
    Symlinks { links: Seq<SymlinkV> },
}

impl View for Action {
    type V = ActionV;

    open spec fn view(&self) -> ActionV {
        match self {
            Action::CargoInstall { crates } => ActionV::CargoInstall { crates: crates.deep_view() },
            Action::EnsureDirs { absolute_paths, home_paths } => ActionV::EnsureDirs {
                absolute_paths: absolute_paths.deep_view(),
                home_paths: home_paths.deep_view(),
            },
            Action::Script { path } => ActionV::Script { path: path@ },
            Action::Packages { packages } => ActionV::Packages { packages: packages.deep_view() },
            Action::Symlinks { links } => ActionV::Symlinks { links: links.deep_view() },
        }
    }
}

impl DeepView for Action {
    type V = ActionV;

    open spec fn deep_view(&self) -> ActionV {
        self.view()
    }
}

/// Lowering of one section: each section variant maps to exactly one
/// action variant with the same payload.
pub open spec fn spec_lower_section(sec: SectionV) -> ActionV {
    match sec {
        SectionV::Cargo(c) => ActionV::CargoInstall { crates: c.crates },
        SectionV::Ensure(c) => ActionV::EnsureDirs {
            absolute_paths: c.absolute_paths,
            home_paths: c.home_paths,
        },
        SectionV::Script(c) => ActionV::Script { path: c.path },
        SectionV::Packages(c) => ActionV::Packages { packages: c.packages },
        SectionV::Symlinks(c) => ActionV::Symlinks { links: c.links },
    }
}

/// Lowering of a whole manifest: one action per section, in source order.
pub open spec fn spec_lower(sections: Seq<SectionV>) -> Seq<ActionV> {
    sections.map_values(|sec: SectionV| spec_lower_section(sec))
}

/// Lowering preserves count and order: a manifest of N sections lowers
/// to exactly N actions, the action at each position being the lowering
/// of the section at the same position.
pub proof fn lemma_lower_preserves_order(sections: Seq<SectionV>)
    ensures
        spec_lower(sections).len() == sections.len(),
        forall|i: int|
            0 <= i < sections.len() ==> #[trigger] spec_lower(sections)[i] == spec_lower_section(
                sections[i],
            ),
{
}

/// Lower one validated section into its action descriptor.
pub fn generate_section(section: Section) -> (a: Action)
    ensures
        a@ == spec_lower_section(section@),
{
    match section {
        Section::Cargo(Cargo { crates }) => Action::CargoInstall { crates },
        Section::Ensure(Ensure { absolute_paths, home_paths }) => Action::EnsureDirs {
            absolute_paths,
            home_paths,
        },
        Section::Script(Script { path }) => Action::Script { path },
        Section::Packages(crate::package::Packages { packages }) => Action::Packages { packages },
        Section::Symlinks(Symlinks { links }) => Action::Symlinks { links },
    }
}

/// Lower a validated manifest into its ordered action-descriptor
/// sequence. The manifest is consumed: lowering is the last step of a
/// compile.
#[verifier::loop_isolation(false)]
pub fn generate_installer(installer: Installer) -> (r: Vec<Action>)
    ensures
        r.deep_view() == spec_lower(installer@.sections),
{
    let Installer { mut sections } = installer;
    let ghost orig = sections.deep_view();
    let mut out: Vec<Action> = Vec::new();
    proof {
        assert(out.deep_view() =~~= spec_lower(orig.subrange(0, 0)));
    }
    while sections.len() > 0
        invariant
            out@.len() + sections@.len() == orig.len(),
            sections.deep_view() == orig.subrange(out@.len() as int, orig.len() as int),
            out.deep_view() == spec_lower(orig.subrange(0, out@.len() as int)),
        decreases sections@.len(),
    {
        let ghost k = out@.len() as int;
        let ghost old_sections = sections.deep_view();
        let ghost old_vec_view = sections@;
        let ghost old_out = out.deep_view();
        let sec = sections.remove(0);
        proof {
            assert(sec.deep_view() == old_sections[0]);
            assert(old_sections[0] == orig[k]);
            assert(sections@ =~= old_vec_view.subrange(1, old_vec_view.len() as int));
            assert forall|i: int| 0 <= i < sections@.len() implies #[trigger] sections@[i].deep_view()
                == orig[k + 1 + i] by {
                assert(sections@[i] == old_vec_view[i + 1]);
                assert(old_vec_view[i + 1].deep_view() == old_sections[i + 1]);
            }
            assert(sections.deep_view() =~~= orig.subrange(k + 1, orig.len() as int));
        }
        let a = generate_section(sec);
        out.push(a);
        proof {
            assert(out.deep_view() =~~= old_out.push(spec_lower_section(orig[k])));
            assert(orig.subrange(0, k + 1) =~= orig.subrange(0, k).push(orig[k]));
            assert(spec_lower(orig.subrange(0, k + 1)) =~= spec_lower(
                orig.subrange(0, k),
            ).push(spec_lower_section(orig[k])));
        }
    }
    proof {
        assert(orig.subrange(0, orig.len() as int) =~= orig);
    }
    out
}

} // verus!
