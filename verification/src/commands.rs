//! The decision core of the upgrade command: which outdated packages are
//! eligible, given the recorded choices. The surrounding command — reading
//! the checklist file, prompting, and running the package manager — lives
//! outside the library and consults these functions.

use vstd::prelude::*;

use crate::brew::OutdatedPackage;
use crate::config::Settings;
use crate::config::spec_enabled;

verus! {

/// The outdated packages the checklist does not disable, in listing
/// order. A name without a recorded choice counts as enabled, so a
/// package installed since the last dump still takes part.
pub open spec fn spec_upgradeable(
    pkgs: Seq<OutdatedPackage>,
    m: Map<Seq<char>, bool>,
) -> Seq<OutdatedPackage>
    decreases pkgs.len(),
{
    if pkgs.len() == 0 {
        Seq::empty()
    } else {
        let rest = spec_upgradeable(pkgs.drop_last(), m);
        if spec_enabled(m, pkgs.last()@.name) {
            rest.push(pkgs.last())
        } else {
            rest
        }
    }
}

/// Keeps the outdated packages the checklist does not disable, in order.
pub fn filter_upgradeable(outdated: &Vec<OutdatedPackage>, settings: &Settings) -> (r: Vec<
    OutdatedPackage,
>)
    ensures
        r@ == spec_upgradeable(outdated@, settings@),
{
    let n = outdated.len();
    let mut r: Vec<OutdatedPackage> = Vec::new();
    let mut i: usize = 0;
    proof {
        assert(outdated@.take(0) =~= Seq::<OutdatedPackage>::empty());
    }
    while i < n
        invariant
            i <= n,
            n == outdated@.len(),
            r@ == spec_upgradeable(outdated@.take(i as int), settings@),
        decreases n - i,
    {
        let enabled = match settings.get(outdated[i].name.as_str()) {
            Some(b) => b,
            None => true,
        };
        proof {
            assert(outdated@.take(i as int + 1).drop_last() =~= outdated@.take(i as int));
            assert(outdated@.take(i as int + 1).last() == outdated@[i as int]);
        }
        if enabled {
            r.push(outdated[i].clone());
        }
        i = i + 1;
    }
    proof {
        assert(outdated@.take(n as int) =~= outdated@);
    }
    r
}

} // verus!
