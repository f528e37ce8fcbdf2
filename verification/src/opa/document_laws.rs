//! What holds of every data document that a typed policy becomes.

use crate::json::Json;
use crate::opa::builder::Entries;
use crate::opa::document;
use crate::opa::policy::{BinaryResolution, NetworkBinary, NetworkMiddleware};
use crate::text;
use vstd::prelude::*;

verus! {

/// Every binary that a policy names stays in its document, whatever became of
/// its resolution.
pub proof fn named_binary_stays(list: Seq<NetworkBinary>, i: int)
    requires
        0 <= i < list.len(),
    ensures
        document::binaries_json(list).contains(document::binary_json(list[i].path@)),
    decreases list.len(),
{
    let all = document::binaries_json(list);
    let before = document::binaries_json(list.drop_last());
    if i < list.len() - 1 {
        named_binary_stays(list.drop_last(), i);
        let k = choose|k: int|
            0 <= k < before.len() && before[k] == document::binary_json(list[i].path@);
        assert(all[k] == before[k]);
    } else {
        assert(all[before.len() as int] == document::binary_json(list[i].path@));
    }
}

/// Whether a document stands for a binary of a list, or for the target that
/// one was resolved to.
pub open spec fn is_named_or_resolved(list: Seq<NetworkBinary>, entry: Json) -> bool {
    exists|i: int|
        0 <= i < list.len() && {
            ||| entry == document::binary_json((#[trigger] list[i]).path@)
            ||| list[i].resolution matches BinaryResolution::Resolved(target) && entry
                == document::binary_json(target@)
        }
}

/// Resolution adds nothing to the document of a policy but the targets of the
/// binaries that the policy names.
pub proof fn listed_binary_is_named_or_resolved(list: Seq<NetworkBinary>, k: int)
    requires
        0 <= k < document::binaries_json(list).len(),
    ensures
        is_named_or_resolved(list, document::binaries_json(list)[k]),
    decreases list.len(),
{
    let before = document::binaries_json(list.drop_last());
    let entry = document::binaries_json(list)[k];
    if k < before.len() {
        listed_binary_is_named_or_resolved(list.drop_last(), k);
        let i = choose|i: int|
            0 <= i < list.drop_last().len() && {
                ||| entry == document::binary_json((#[trigger] list.drop_last()[i]).path@)
                ||| list.drop_last()[i].resolution matches BinaryResolution::Resolved(target)
                    && entry == document::binary_json(target@)
            };
        assert(list[i] == list.drop_last()[i]);
    } else {
        let last = list[list.len() - 1];
        assert(entry == document::binary_entries(last)[k - before.len()]);
    }
}

/// Where nothing was resolved, the document lists the binaries that the policy
/// names, in order.
pub proof fn unresolved_binaries_are_listed_as_named(list: Seq<NetworkBinary>)
    requires
        forall|i: int| 0 <= i < list.len() ==> !((#[trigger] list[i]).resolution is Resolved),
    ensures
        document::binaries_json(list) == list.map_values(
            |binary: NetworkBinary| document::binary_json(binary.path@),
        ),
    decreases list.len(),
{
    if list.len() > 0 {
        assert forall|i: int| 0 <= i < list.drop_last().len() implies !((
        #[trigger] list.drop_last()[i]).resolution is Resolved) by {
            assert(list.drop_last()[i] == list[i]);
        }
        unresolved_binaries_are_listed_as_named(list.drop_last());
    }
    assert(document::binaries_json(list) =~= list.map_values(
        |binary: NetworkBinary| document::binary_json(binary.path@),
    ));
}

/// Whether no entry stands behind one whose key it precedes.
pub open spec fn keys_in_order(list: Entries) -> bool {
    forall|i: int, j: int|
        0 <= i < j < list.len() ==> !text::precedes((#[trigger] list[j]).0, (#[trigger] list[i]).0)
}

proof fn lemma_sorted_entry(list: Entries, key: Seq<char>, value: Json, k: int)
    requires
        0 <= k < document::with_sorted(list, key, value).len(),
    ensures
        document::with_sorted(list, key, value)[k] == (key, value) || list.contains(
            document::with_sorted(list, key, value)[k],
        ),
    decreases list.len(),
{
    let all = document::with_sorted(list, key, value);
    if list.len() > 0 {
        if text::precedes(key, list[0].0) {
            if k > 0 {
                assert(all[k] == list[k - 1]);
            }
        } else if k == 0 {
            assert(all[0] == list[0]);
        } else {
            let rest = list.skip(1);
            assert(all[k] == document::with_sorted(rest, key, value)[k - 1]);
            lemma_sorted_entry(rest, key, value, k - 1);
            if rest.contains(all[k]) {
                let i = choose|i: int| 0 <= i < rest.len() && rest[i] == all[k];
                assert(list[i + 1] == all[k]);
            }
        }
    }
}

proof fn lemma_sorted_keeps(list: Entries, key: Seq<char>, value: Json)
    ensures
        document::with_sorted(list, key, value).contains((key, value)),
        forall|i: int|
            0 <= i < list.len() ==> document::with_sorted(list, key, value).contains(
                #[trigger] list[i],
            ),
    decreases list.len(),
{
    let all = document::with_sorted(list, key, value);
    if list.len() == 0 {
        assert(all[0] == (key, value));
    } else if text::precedes(key, list[0].0) {
        assert(all[0] == (key, value));
        assert forall|i: int| 0 <= i < list.len() implies all.contains(#[trigger] list[i]) by {
            assert(all[i + 1] == list[i]);
        }
    } else {
        let rest = list.skip(1);
        let inner = document::with_sorted(rest, key, value);
        lemma_sorted_keeps(rest, key, value);
        let k = choose|k: int| 0 <= k < inner.len() && inner[k] == (key, value);
        assert(all[k + 1] == (key, value));
        assert forall|i: int| 0 <= i < list.len() implies all.contains(#[trigger] list[i]) by {
            if i == 0 {
                assert(all[0] == list[0]);
            } else {
                assert(rest[i - 1] == list[i]);
                let k = choose|k: int| 0 <= k < inner.len() && inner[k] == rest[i - 1];
                assert(all[k + 1] == list[i]);
            }
        }
    }
}

proof fn lemma_sorted_in_order(list: Entries, key: Seq<char>, value: Json)
    requires
        keys_in_order(list),
    ensures
        keys_in_order(document::with_sorted(list, key, value)),
    decreases list.len(),
{
    let all = document::with_sorted(list, key, value);
    if list.len() == 0 {
    } else if text::precedes(key, list[0].0) {
        assert forall|i: int, j: int| 0 <= i < j < all.len() implies !text::precedes(
            (#[trigger] all[j]).0,
            (#[trigger] all[i]).0,
        ) by {
            assert(all[j] == list[j - 1]);
            if i > 0 {
                assert(all[i] == list[i - 1]);
            } else if text::precedes(all[j].0, key) {
                text::lemma_precedes_transitive(all[j].0, key, list[0].0);
                if j == 1 {
                    lemma_precedes_irreflexive(list[0].0);
                }
            }
        }
    } else {
        let rest = list.skip(1);
        let inner = document::with_sorted(rest, key, value);
        assert forall|i: int, j: int| 0 <= i < j < rest.len() implies !text::precedes(
            (#[trigger] rest[j]).0,
            (#[trigger] rest[i]).0,
        ) by {
            assert(rest[j] == list[j + 1] && rest[i] == list[i + 1]);
        }
        lemma_sorted_in_order(rest, key, value);
        assert forall|i: int, j: int| 0 <= i < j < all.len() implies !text::precedes(
            (#[trigger] all[j]).0,
            (#[trigger] all[i]).0,
        ) by {
            assert(all[j] == inner[j - 1]);
            if i > 0 {
                assert(all[i] == inner[i - 1]);
            } else {
                lemma_sorted_entry(rest, key, value, j - 1);
                if rest.contains(inner[j - 1]) {
                    let k = choose|k: int| 0 <= k < rest.len() && rest[k] == inner[j - 1];
                    assert(list[k + 1] == rest[k]);
                }
            }
        }
    }
}

proof fn lemma_precedes_irreflexive(a: Seq<char>)
    ensures
        !text::precedes(a, a),
    decreases a.len(),
{
    if a.len() > 0 {
        lemma_precedes_irreflexive(a.skip(1));
    }
}

/// The middlewares of a document are in the order of their names.
pub proof fn middlewares_are_in_order(list: Seq<(String, NetworkMiddleware)>)
    ensures
        keys_in_order(document::middlewares_json(list)),
    decreases list.len(),
{
    if list.len() > 0 {
        middlewares_are_in_order(list.drop_last());
        lemma_sorted_in_order(
            document::middlewares_json(list.drop_last()),
            list.last().0@,
            document::middleware_json(list.last().1),
        );
    }
}

/// Every middleware that a policy configures stands in its document.
pub proof fn configured_middleware_stays(list: Seq<(String, NetworkMiddleware)>, i: int)
    requires
        0 <= i < list.len(),
    ensures
        document::middlewares_json(list).contains(
            (list[i].0@, document::middleware_json(list[i].1)),
        ),
    decreases list.len(),
{
    let before = document::middlewares_json(list.drop_last());
    lemma_sorted_keeps(before, list.last().0@, document::middleware_json(list.last().1));
    if i < list.len() - 1 {
        configured_middleware_stays(list.drop_last(), i);
        let k = choose|k: int|
            0 <= k < before.len() && before[k] == (
                list[i].0@,
                document::middleware_json(list[i].1),
            );
        assert(document::middlewares_json(list).contains(before[k]));
    }
}

} // verus!
