//! What holds of the order of the descriptors in a payload: they stand in
//! the order of the configuration, whatever the order of the items in the
//! documents.

use vstd::prelude::*;
use crate::config::{entry_named, Config};
use crate::document::{distinct_ids, lemma_reordered_documents_agree, Crate, Item};
use crate::generate::{
    candidate_item, candidate_target, candidates, descriptor, descriptors, document_candidates,
    document_failure, eligible, failure, generated_body, has_target, ordered, payload,
    payload_around,
};
use crate::search::{
    lemma_first_index, lemma_picked_add, lemma_picked_kept, lemma_picked_prefix, picked,
};
use crate::text::{concat_all, lemma_concat_all_add};

verus! {

/// No item of `crates` is eligible.
pub open spec fn nothing_eligible(config: Config, crates: Seq<Crate>) -> bool {
    forall|d: int, j: int|
        0 <= d < crates.len() && 0 <= j < crates[d].items().len() ==> !eligible(
            config,
            crates[d]@,
            #[trigger] crates[d].items()[j],
        )
}

proof fn lemma_no_document_candidates(config: Config, crates: Seq<Crate>, d: int, n: nat)
    requires
        nothing_eligible(config, crates),
        0 <= d < crates.len(),
        n <= crates[d].items().len(),
    ensures
        document_candidates(config, crates, d, n) == Seq::<(int, int)>::empty(),
        document_failure(config, crates, d, n) is None,
    decreases n,
{
    if n > 0 {
        lemma_no_document_candidates(config, crates, d, (n - 1) as nat);
        assert(!eligible(config, crates[d]@, crates[d].items()[n - 1]));
    }
}

proof fn lemma_no_candidates(config: Config, crates: Seq<Crate>, docs: nat)
    requires
        nothing_eligible(config, crates),
        docs <= crates.len(),
    ensures
        candidates(config, crates, docs) == Seq::<(int, int)>::empty(),
        failure(config, crates, docs) is None,
    decreases docs,
{
    if docs > 0 {
        lemma_no_candidates(config, crates, (docs - 1) as nat);
        lemma_no_document_candidates(config, crates, docs - 1, crates[docs - 1].items().len());
    }
}

proof fn lemma_ordered_nothing(config: Config, crates: Seq<Crate>, n: nat)
    ensures
        ordered(config, crates, Seq::empty(), n) == Seq::<(int, int)>::empty(),
    decreases n,
{
    if n > 0 {
        lemma_ordered_nothing(config, crates, (n - 1) as nat);
    }
}

/// Where no item of any document is eligible, as when every configured name
/// is absent from every document, the run succeeds, and its payload holds the
/// preamble, the list of external types and the bindings of the primitives
/// around an empty list of descriptors.
pub proof fn lemma_nothing_eligible_payload(config: Config, crates: Seq<Crate>)
    requires
        nothing_eligible(config, crates),
    ensures
        failure(config, crates, crates.len()) is None,
        generated_body(config, crates) == Seq::<char>::empty(),
        payload(config, crates) == payload_around(config, Seq::empty()),
{
    lemma_no_candidates(config, crates, crates.len());
    lemma_ordered_nothing(config, crates, config.entries().len());
    assert(descriptors(config, crates, Seq::empty()) =~= Seq::<Seq<char>>::empty());
}

/// The descriptors stand in the order of the configuration: of two
/// candidates in `ordered`, the later one's target is not declared before the
/// earlier one's. Each is a candidate for one of the first `n` targets.
pub proof fn lemma_ordered_by_target(
    config: Config,
    crates: Seq<Crate>,
    found: Seq<(int, int)>,
    n: nat,
)
    ensures
        forall|i: int|
            0 <= i < ordered(config, crates, found, n).len() ==> 0 <= candidate_target(
                config,
                crates,
                #[trigger] ordered(config, crates, found, n)[i],
            ) < n,
        forall|i: int, j: int|
            0 <= i < j < ordered(config, crates, found, n).len() ==> candidate_target(
                config,
                crates,
                #[trigger] ordered(config, crates, found, n)[i],
            ) <= candidate_target(config, crates, #[trigger] ordered(config, crates, found, n)[j]),
    decreases n,
{
    if n > 0 {
        lemma_ordered_by_target(config, crates, found, (n - 1) as nat);
        lemma_picked_kept(found, has_target(config, crates, n - 1), found.len());
        let before = ordered(config, crates, found, (n - 1) as nat);
        let last = picked(found, has_target(config, crates, n - 1), found.len());
        let all = ordered(config, crates, found, n);
        assert forall|i: int| 0 <= i < all.len() implies 0 <= candidate_target(
            config,
            crates,
            #[trigger] all[i],
        ) < n && (i < before.len() ==> all[i] == before[i]) && (i >= before.len() ==> all[i]
            == last[i - before.len()] && candidate_target(config, crates, all[i]) == n - 1) by {
            if i >= before.len() {
                assert(has_target(config, crates, n - 1)(last[i - before.len()]));
            }
        }
    }
}

/// The descriptors of the eligible items of `source` among its first `n`
/// whose target stands at position `k`.
pub open spec fn target_texts(config: Config, source: Crate, k: int, n: nat) -> Seq<Seq<char>>
    decreases n,
{
    if n == 0 || n > source.items().len() {
        Seq::empty()
    } else {
        let done = target_texts(config, source, k, (n - 1) as nat);
        let item = source.items()[n - 1];
        if is_hit(config, source, k, item) {
            done.push(descriptor(source@, item, config.entries()[k], config))
        } else {
            done
        }
    }
}

/// Whether `item` is eligible in `source` for the target at position `k`.
pub open spec fn is_hit(config: Config, source: Crate, k: int, item: Item) -> bool {
    eligible(config, source@, item) && config.target_index(item.name->0@) == k
}

/// The descriptors for the target at position `k` over the first `docs`
/// documents.
pub open spec fn texts_for(config: Config, crates: Seq<Crate>, k: int, docs: nat) -> Seq<
    Seq<char>,
>
    decreases docs,
{
    if docs == 0 || docs > crates.len() {
        Seq::empty()
    } else {
        texts_for(config, crates, k, (docs - 1) as nat) + target_texts(
            config,
            crates[docs - 1],
            k,
            crates[docs - 1].items().len(),
        )
    }
}

/// The descriptors for the first `n` targets, target by target.
pub open spec fn body_by_target(config: Config, crates: Seq<Crate>, n: nat) -> Seq<char>
    decreases n,
{
    if n == 0 {
        Seq::empty()
    } else {
        body_by_target(config, crates, (n - 1) as nat) + concat_all(
            texts_for(config, crates, n - 1, crates.len()),
        )
    }
}

proof fn lemma_descriptors_add(
    config: Config,
    crates: Seq<Crate>,
    first: Seq<(int, int)>,
    second: Seq<(int, int)>,
)
    ensures
        descriptors(config, crates, first + second) == descriptors(config, crates, first)
            + descriptors(config, crates, second),
{
    assert(descriptors(config, crates, first + second) =~= descriptors(config, crates, first)
        + descriptors(config, crates, second));
}

proof fn lemma_document_texts(config: Config, crates: Seq<Crate>, d: int, k: int, n: nat)
    requires
        0 <= d < crates.len(),
        n <= crates[d].items().len(),
    ensures
        descriptors(
            config,
            crates,
            picked(
                document_candidates(config, crates, d, n),
                has_target(config, crates, k),
                document_candidates(config, crates, d, n).len(),
            ),
        ) == target_texts(config, crates[d], k, n),
    decreases n,
{
    let keep = has_target(config, crates, k);
    if n == 0 {
        assert(descriptors(config, crates, Seq::empty()) =~= Seq::<Seq<char>>::empty());
    } else {
        lemma_document_texts(config, crates, d, k, (n - 1) as nat);
        let before = document_candidates(config, crates, d, (n - 1) as nat);
        let now = document_candidates(config, crates, d, n);
        let item = crates[d].items()[n - 1];
        if eligible(config, crates[d]@, item) {
            let c = (d, n - 1);
            assert(now == before.push(c));
            lemma_picked_prefix(now, before, keep, before.len());
            assert(candidate_item(crates, c) == item);
            if keep(c) {
                let taken = picked(before, keep, before.len());
                assert(picked(now, keep, now.len()) == taken.push(c));
                assert(descriptors(config, crates, taken.push(c)) =~= descriptors(
                    config,
                    crates,
                    taken,
                ).push(descriptor(crates[d]@, item, config.entries()[k], config)));
            }
        }
    }
}

proof fn lemma_texts_for(config: Config, crates: Seq<Crate>, k: int, docs: nat)
    requires
        docs <= crates.len(),
    ensures
        descriptors(
            config,
            crates,
            picked(
                candidates(config, crates, docs),
                has_target(config, crates, k),
                candidates(config, crates, docs).len(),
            ),
        ) == texts_for(config, crates, k, docs),
    decreases docs,
{
    let keep = has_target(config, crates, k);
    if docs == 0 {
        assert(descriptors(config, crates, Seq::empty()) =~= Seq::<Seq<char>>::empty());
    } else {
        lemma_texts_for(config, crates, k, (docs - 1) as nat);
        let before = candidates(config, crates, (docs - 1) as nat);
        let here = document_candidates(config, crates, docs - 1, crates[docs - 1].items().len());
        lemma_picked_add(before, here, keep);
        lemma_descriptors_add(
            config,
            crates,
            picked(before, keep, before.len()),
            picked(here, keep, here.len()),
        );
        lemma_document_texts(config, crates, docs - 1, k, crates[docs - 1].items().len());
    }
}

proof fn lemma_body_by_target(config: Config, crates: Seq<Crate>, n: nat)
    ensures
        concat_all(
            descriptors(
                config,
                crates,
                ordered(config, crates, candidates(config, crates, crates.len()), n),
            ),
        ) == body_by_target(config, crates, n),
    decreases n,
{
    let found = candidates(config, crates, crates.len());
    if n == 0 {
        assert(descriptors(config, crates, Seq::empty()) =~= Seq::<Seq<char>>::empty());
    } else {
        lemma_body_by_target(config, crates, (n - 1) as nat);
        let before = ordered(config, crates, found, (n - 1) as nat);
        let last = picked(found, has_target(config, crates, n - 1), found.len());
        lemma_descriptors_add(config, crates, before, last);
        lemma_concat_all_add(
            descriptors(config, crates, before),
            descriptors(config, crates, last),
        );
        lemma_texts_for(config, crates, n - 1, crates.len());
    }
}

/// No two eligible items of `source` have the same name.
pub open spec fn one_per_target(config: Config, source: Crate) -> bool {
    forall|i: int, j: int|
        0 <= i < j < source.items().len() && eligible(
            config,
            source@,
            #[trigger] source.items()[i],
        ) && eligible(config, source@, #[trigger] source.items()[j]) ==> source.items()[i].name->0@
            != source.items()[j].name->0@
}

/// `second` holds the items of `first` in another order, and everything
/// else as `first` does; no identifier occurs twice among them.
pub open spec fn reordered(first: Crate, second: Crate) -> bool {
    &&& first.items().to_set() == second.items().to_set()
    &&& distinct_ids(first.items())
    &&& distinct_ids(second.items())
    &&& first.summaries() == second.summaries()
    &&& first.externals() == second.externals()
}

proof fn lemma_same_target_same_name(config: Config, source: Crate, k: int, x: Item, y: Item)
    requires
        is_hit(config, source, k, x),
        is_hit(config, source, k, y),
    ensures
        x.name->0@ == y.name->0@,
{
    lemma_first_index(config.entries(), entry_named(x.name->0@));
    lemma_first_index(config.entries(), entry_named(y.name->0@));
}

proof fn lemma_no_hit(config: Config, source: Crate, k: int, n: nat)
    requires
        n <= source.items().len(),
        forall|p: int| 0 <= p < n ==> !is_hit(config, source, k, #[trigger] source.items()[p]),
    ensures
        target_texts(config, source, k, n) == Seq::<Seq<char>>::empty(),
    decreases n,
{
    if n > 0 {
        lemma_no_hit(config, source, k, (n - 1) as nat);
        assert(!is_hit(config, source, k, source.items()[n - 1]));
    }
}

proof fn lemma_one_hit(config: Config, source: Crate, k: int, p: int, n: nat)
    requires
        0 <= p < n <= source.items().len(),
        one_per_target(config, source),
        is_hit(config, source, k, source.items()[p]),
    ensures
        target_texts(config, source, k, n) == seq![
            descriptor(source@, source.items()[p], config.entries()[k], config),
        ],
    decreases n,
{
    let last = source.items()[n - 1];
    if n - 1 == p {
        assert forall|q: int| 0 <= q < p implies !is_hit(
            config,
            source,
            k,
            #[trigger] source.items()[q],
        ) by {
            if is_hit(config, source, k, source.items()[q]) {
                lemma_same_target_same_name(config, source, k, source.items()[q], source.items()[p]);
            }
        }
        lemma_no_hit(config, source, k, p as nat);
        assert(Seq::<Seq<char>>::empty().push(
            descriptor(source@, source.items()[p], config.entries()[k], config),
        ) =~= seq![descriptor(source@, source.items()[p], config.entries()[k], config)]);
    } else {
        lemma_one_hit(config, source, k, p, (n - 1) as nat);
        if is_hit(config, source, k, last) {
            lemma_same_target_same_name(config, source, k, source.items()[p], last);
        }
    }
}

proof fn lemma_reordered_one_per_target(config: Config, first: Crate, second: Crate)
    requires
        reordered(first, second),
        one_per_target(config, first),
    ensures
        one_per_target(config, second),
        first@ == second@,
{
    lemma_reordered_documents_agree(first, second);
    assert forall|i: int, j: int|
        0 <= i < j < second.items().len() && eligible(
            config,
            second@,
            #[trigger] second.items()[i],
        ) && eligible(config, second@, #[trigger] second.items()[j]) implies second.items()[i].name->0@
        != second.items()[j].name->0@ by {
        let x = second.items()[i];
        let y = second.items()[j];
        assert(second.items().to_set().contains(x));
        assert(second.items().to_set().contains(y));
        assert(first.items().to_set().contains(x));
        assert(first.items().to_set().contains(y));
        let p = choose|p: int| 0 <= p < first.items().len() && first.items()[p] == x;
        let q = choose|q: int| 0 <= q < first.items().len() && first.items()[q] == y;
        if p == q {
            assert(second.items()[i].id.0@ == second.items()[j].id.0@);
        } else if p < q {
            assert(first.items()[p].name->0@ != first.items()[q].name->0@);
        } else {
            assert(first.items()[q].name->0@ != first.items()[p].name->0@);
        }
    }
}

proof fn lemma_reordered_target_texts(config: Config, first: Crate, second: Crate, k: int)
    requires
        reordered(first, second),
        one_per_target(config, first),
    ensures
        target_texts(config, first, k, first.items().len()) == target_texts(
            config,
            second,
            k,
            second.items().len(),
        ),
{
    lemma_reordered_one_per_target(config, first, second);
    if exists|p: int|
        0 <= p < first.items().len() && is_hit(config, first, k, #[trigger] first.items()[p]) {
        let p = choose|p: int|
            0 <= p < first.items().len() && is_hit(config, first, k, #[trigger] first.items()[p]);
        let x = first.items()[p];
        assert(first.items().to_set().contains(x));
        assert(second.items().to_set().contains(x));
        let q = choose|q: int| 0 <= q < second.items().len() && second.items()[q] == x;
        lemma_one_hit(config, first, k, p, first.items().len());
        lemma_one_hit(config, second, k, q, second.items().len());
    } else {
        assert forall|q: int| 0 <= q < second.items().len() implies !is_hit(
            config,
            second,
            k,
            #[trigger] second.items()[q],
        ) by {
            let y = second.items()[q];
            assert(second.items().to_set().contains(y));
            assert(first.items().to_set().contains(y));
            let p = choose|p: int| 0 <= p < first.items().len() && first.items()[p] == y;
            assert(!is_hit(config, first, k, first.items()[p]));
        }
        lemma_no_hit(config, first, k, first.items().len());
        lemma_no_hit(config, second, k, second.items().len());
    }
}

/// Every document of `second` is the document of `first` at the same place
/// with its items in another order, and no document holds two eligible items
/// of one name.
pub open spec fn documents_reordered(config: Config, first: Seq<Crate>, second: Seq<Crate>) -> bool {
    &&& first.len() == second.len()
    &&& forall|d: int|
        0 <= d < first.len() ==> reordered(#[trigger] first[d], second[d]) && one_per_target(
            config,
            first[d],
        )
}

proof fn lemma_reordered_texts_for(
    config: Config,
    first: Seq<Crate>,
    second: Seq<Crate>,
    k: int,
    docs: nat,
)
    requires
        documents_reordered(config, first, second),
        docs <= first.len(),
    ensures
        texts_for(config, first, k, docs) == texts_for(config, second, k, docs),
    decreases docs,
{
    if docs > 0 {
        lemma_reordered_texts_for(config, first, second, k, (docs - 1) as nat);
        assert(reordered(first[docs - 1], second[docs - 1]));
        lemma_reordered_target_texts(config, first[docs - 1], second[docs - 1], k);
    }
}

proof fn lemma_reordered_body(config: Config, first: Seq<Crate>, second: Seq<Crate>, n: nat)
    requires
        documents_reordered(config, first, second),
    ensures
        body_by_target(config, first, n) == body_by_target(config, second, n),
    decreases n,
{
    if n > 0 {
        lemma_reordered_body(config, first, second, (n - 1) as nat);
        lemma_reordered_texts_for(config, first, second, n - 1, first.len());
    }
}

/// Putting the items of the documents into another order changes nothing in
/// the payload: the descriptors are the same and stand in the same order, that
/// of the configuration. This holds where no identifier occurs twice in a
/// document and no document holds two eligible items of one name; of two such
/// items the one that comes first in its document is written first.
pub proof fn lemma_reordering_keeps_payload(config: Config, first: Seq<Crate>, second: Seq<Crate>)
    requires
        documents_reordered(config, first, second),
    ensures
        generated_body(config, first) == generated_body(config, second),
        payload(config, first) == payload(config, second),
{
    lemma_body_by_target(config, first, config.entries().len());
    lemma_body_by_target(config, second, config.entries().len());
    lemma_reordered_body(config, first, second, config.entries().len());
}

} // verus!
