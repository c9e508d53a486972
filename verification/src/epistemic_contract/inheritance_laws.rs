//! What a kind of claim requires, stated on its contract and its parent's.
use vstd::prelude::*;

use super::{
    composed, effective, inherited_from, is_lineage, is_walk, law_lineage_follows_parents,
    lemma_walk_fits, lineage, lineage_from, ClaimClassIdModel, ContractErrorModel, EpistemicContractModel,
    EvidenceRequirementModel,
};

verus! {

proof fn lemma_lineage_found(
    registry: Map<ClaimClassIdModel, EpistemicContractModel>,
    target: ClaimClassIdModel,
    chain: Seq<ClaimClassIdModel>,
    n: int,
)
    requires
        is_lineage(registry, target, chain),
        registry.dom().finite(),
        0 <= n < chain.len(),
    ensures
        lineage_from(registry, target, chain.take(n), chain[n]) == Ok::<_, ContractErrorModel>(
            chain,
        ),
    decreases chain.len() - n,
{
    lemma_walk_fits(registry, target, chain);
    let next = chain.take(n).push(chain[n]);
    assert(next =~= chain.take(n + 1));
    assert(registry.dom().contains(chain[n]));
    if n == chain.len() - 1 {
        assert(chain.take(n + 1) =~= chain);
        assert(chain[n] == chain.last());
    } else {
        assert(registry[chain[n]].parent == Some(chain[n + 1]));
        assert(!next.contains(chain[n + 1])) by {
            if next.contains(chain[n + 1]) {
                let i = choose|i: int| 0 <= i < next.len() && next[i] == chain[n + 1];
                assert(chain[i] == chain[n + 1]);
            }
        }
        lemma_lineage_found(registry, target, chain, n + 1);
    }
}

/// The chain of parents is found wherever there is one.
pub proof fn law_lineages_are_found(
    registry: Map<ClaimClassIdModel, EpistemicContractModel>,
    target: ClaimClassIdModel,
    chain: Seq<ClaimClassIdModel>,
)
    requires
        registry.dom().finite(),
        is_lineage(registry, target, chain),
    ensures
        lineage(registry, target) == Ok::<_, ContractErrorModel>(chain),
{
    assert(chain.take(0) =~= Seq::empty());
    lemma_lineage_found(registry, target, chain, 0);
}

proof fn lemma_inherited_step(
    registry: Map<ClaimClassIdModel, EpistemicContractModel>,
    chain: Seq<ClaimClassIdModel>,
    n: int,
    merged: Map<Seq<char>, EvidenceRequirementModel>,
)
    requires
        1 <= n <= chain.len(),
    ensures
        inherited_from(registry, chain, n, merged) == (match inherited_from(
            registry,
            chain.drop_first(),
            n - 1,
            merged,
        ) {
            Ok(m) => composed(chain[0], m, registry[chain[0]].requirements),
            Err(e) => Err(e),
        }),
    decreases n,
{
    let rest = chain.drop_first();
    reveal_with_fuel(inherited_from, 2);
    if n > 1 {
        assert(rest[n - 2] == chain[n - 1]);
        match composed(chain[n - 1], merged, registry[chain[n - 1]].requirements) {
            Ok(m) => {
                lemma_inherited_step(registry, chain, n - 1, m);
            },
            Err(_) => {},
        }
    }
}

/// A kind of claim without a parent requires what its own contract says. One
/// with a parent requires that on top of what the parent requires: its own
/// requirements are composed with all of the parent's.
pub proof fn law_requirements_build_on_the_parents(
    registry: Map<ClaimClassIdModel, EpistemicContractModel>,
    target: ClaimClassIdModel,
)
    requires
        registry.dom().finite(),
        lineage(registry, target) is Ok,
    ensures
        registry.dom().contains(target),
        match registry[target].parent {
            None => effective(registry, target) == composed(
                target,
                Map::empty(),
                registry[target].requirements,
            ),
            Some(parent) => effective(registry, target) == (match effective(registry, parent) {
                Ok(m) => composed(target, m, registry[target].requirements),
                Err(e) => Err(e),
            }),
        },
{
    let chain = lineage(registry, target)->Ok_0;
    law_lineage_follows_parents(registry, target);
    assert(registry.dom().contains(chain[0]));
    let rest = chain.drop_first();
    lemma_inherited_step(registry, chain, chain.len() as int, Map::empty());
    if chain.len() == 1 {
        assert(chain.last() == chain[0]);
    } else {
        let parent = chain[1];
        assert(registry[chain[0]].parent == Some(chain[1]));
        assert(rest[0] == parent);
        assert(rest.last() == chain.last());
        assert forall|i: int| 0 <= i < rest.len() implies registry.dom().contains(
            #[trigger] rest[i],
        ) by {
            assert(rest[i] == chain[i + 1]);
        }
        assert forall|i: int| 0 <= i < rest.len() - 1 implies registry[#[trigger] rest[i]].parent
            == Some(rest[i + 1]) by {
            assert(registry[chain[i + 1]].parent == Some(chain[i + 2]));
        }
        assert(rest.no_duplicates()) by {
            assert forall|i: int, j: int|
                0 <= i < rest.len() && 0 <= j < rest.len() && i != j implies rest[i] != rest[j] by {
                assert(chain[i + 1] != chain[j + 1]);
            }
        }
        law_lineages_are_found(registry, parent, rest);
    }
}

proof fn lemma_missing_found(
    registry: Map<ClaimClassIdModel, EpistemicContractModel>,
    target: ClaimClassIdModel,
    chain: Seq<ClaimClassIdModel>,
    parent: ClaimClassIdModel,
    n: int,
)
    requires
        is_walk(registry, target, chain),
        registry.dom().finite(),
        registry[chain.last()].parent == Some(parent),
        !registry.dom().contains(parent),
        0 <= n < chain.len(),
    ensures
        lineage_from(registry, target, chain.take(n), chain[n]) == Err::<
            Seq<ClaimClassIdModel>,
            _,
        >(ContractErrorModel::MissingParent { claim_class: chain.last(), parent }),
    decreases chain.len() - n,
{
    lemma_walk_fits(registry, target, chain);
    let next = chain.take(n).push(chain[n]);
    assert(next =~= chain.take(n + 1));
    assert(registry.dom().contains(chain[n]));
    if n == chain.len() - 1 {
        assert(next =~= chain);
        assert(chain[n] == chain.last());
        assert(!next.contains(parent)) by {
            if next.contains(parent) {
                let i = choose|i: int| 0 <= i < next.len() && next[i] == parent;
                assert(registry.dom().contains(chain[i]));
            }
        }
        reveal_with_fuel(lineage_from, 2);
    } else {
        assert(registry[chain[n]].parent == Some(chain[n + 1]));
        assert(!next.contains(chain[n + 1])) by {
            if next.contains(chain[n + 1]) {
                let i = choose|i: int| 0 <= i < next.len() && next[i] == chain[n + 1];
                assert(chain[i] == chain[n + 1]);
            }
        }
        lemma_missing_found(registry, target, chain, parent, n + 1);
    }
}

/// A kind of claim whose chain of parents leads to one that is not registered
/// has no requirements: the missing parent is named, and whose it is.
pub proof fn law_missing_parents_are_named(
    registry: Map<ClaimClassIdModel, EpistemicContractModel>,
    target: ClaimClassIdModel,
    chain: Seq<ClaimClassIdModel>,
    parent: ClaimClassIdModel,
)
    requires
        registry.dom().finite(),
        is_walk(registry, target, chain),
        registry[chain.last()].parent == Some(parent),
        !registry.dom().contains(parent),
    ensures
        effective(registry, target) == Err::<Map<Seq<char>, EvidenceRequirementModel>, _>(
            ContractErrorModel::MissingParent { claim_class: chain.last(), parent },
        ),
{
    assert(chain.take(0) =~= Seq::empty());
    lemma_missing_found(registry, target, chain, parent, 0);
}

} // verus!
