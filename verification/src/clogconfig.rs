//! The assembled configuration of one changelog run, built from
//! command-line values and an already-decoded configuration table.

use vstd::prelude::*;

use crate::clog::grep_pattern;
use crate::clog::spec_grep_pattern;
use crate::clog::spec_register_all;
use crate::registry::is_default_registry;
use crate::registry::spec_resolve;
use crate::registry::CategoryRegistry;

verus! {

/// The options of one changelog run.
pub struct ClogConfig {
    /// The grep search pattern used to preselect commits.
    pub grep: String,
    /// The format of the commit output expected from the log retrieval.
    pub format: String,
    /// The repository used for the base of hyper-links.
    pub repo: String,
    /// The version tag for the release.
    pub version: String,
    /// The subtitle for the release.
    pub subtitle: String,
    /// Where to start looking for commits.
    pub from: String,
    /// Where to stop looking for commits.
    pub to: String,
    /// The file to write the changelog to.
    pub changelog: String,
    /// The sections and the aliases that map commits onto them.
    pub section_map: CategoryRegistry,
}

impl ClogConfig {
    /// Assembles a configuration from already-decoded values: the
    /// sections are the defaults with the decoded section table
    /// registered on top, and the grep pattern is derived from them.
    pub fn assemble(
        version: String,
        repo: String,
        subtitle: String,
        from: String,
        to: String,
        changelog: String,
        sections: Vec<(String, Vec<String>)>,
    ) -> (r: ClogConfig)
        ensures
            exists|base: Seq<crate::registry::Category>|
                #[trigger] is_default_registry(base) && r.section_map.categories@
                    == spec_register_all(base, sections@),
            r.grep@ == spec_grep_pattern(r.section_map.categories@) + "BREAKING'"@,
            r.format@ == "%H%n%s%n%b%n==END=="@,
            r.version == version,
            r.repo == repo,
            r.subtitle == subtitle,
            r.from == from,
            r.to == to,
            r.changelog == changelog,
    {
        let mut section_map = CategoryRegistry::with_defaults();
        let ghost base = section_map.categories@;
        let ghost all = sections@;
        let mut rest = sections;
        proof {
            assert(all.skip(0) =~= all);
            assert(all.take(0) =~= Seq::<(String, Vec<String>)>::empty());
        }
        while rest.len() > 0
            invariant
                rest@.len() <= all.len(),
                rest@ == all.skip(all.len() - rest@.len()),
                is_default_registry(base),
                section_map.categories@ == spec_register_all(
                    base,
                    all.take(all.len() - rest@.len()),
                ),
            decreases rest@.len(),
        {
            let ghost k = all.len() - rest@.len();
            let (name, aliases) = rest.remove(0);
            proof {
                assert((name, aliases) == all[k]);
                assert(rest@ =~= all.skip(k + 1));
                assert(all.take(k + 1).drop_last() =~= all.take(k));
                assert(all.take(k + 1).last() == all[k]);
            }
            section_map.register(name, aliases);
        }
        proof {
            assert(all.take(all.len() as int) =~= all);
        }
        let grep = grep_pattern(&section_map);
        ClogConfig {
            grep,
            format: String::from_str("%H%n%s%n%b%n==END=="),
            repo,
            version,
            subtitle,
            from,
            to,
            changelog,
            section_map,
        }
    }

    /// Retrieves the section title for a given alias, `"Unknown"` when
    /// no section claims it.
    pub fn section_for(&self, alias: &str) -> (r: String)
        ensures
            r@ == spec_resolve(self.section_map.categories@, alias@),
    {
        self.section_map.resolve(alias)
    }
}

} // verus!
