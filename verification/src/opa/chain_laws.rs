//! What holds of every middleware chain.

use crate::opa::chain;
use crate::opa::chain::{ChainFault, Selection, Stage};
use crate::opa::rego;
use crate::opa::rego::Rego;
use crate::opa::struct_value;
use crate::opa::struct_value::StructModel;
use vstd::prelude::*;

verus! {

proof fn lemma_position(object: Seq<(Rego, Rego)>, key: Seq<char>)
    ensures
        0 <= rego::position(object, key) <= object.len(),
        rego::position(object, key) < object.len() ==> object[rego::position(object, key)].0
            == Rego::Text(key),
        forall|i: int|
            0 <= i < rego::position(object, key) ==> (#[trigger] object[i]).0 != Rego::Text(key),
    decreases object.len(),
{
    if object.len() > 0 && object[0].0 != Rego::Text(key) {
        lemma_position(object.skip(1), key);
        assert forall|i: int| 0 <= i < rego::position(object, key) implies (
        #[trigger] object[i]).0 != Rego::Text(key) by {
            if i > 0 {
                assert(object[i] == object.skip(1)[i - 1]);
            }
        }
    }
}

proof fn lemma_position_is(object: Seq<(Rego, Rego)>, key: Seq<char>, at: int)
    requires
        0 <= at <= object.len(),
        at < object.len() ==> object[at].0 == Rego::Text(key),
        forall|i: int| 0 <= i < at ==> (#[trigger] object[i]).0 != Rego::Text(key),
    ensures
        rego::position(object, key) == at,
{
    lemma_position(object, key);
}

/// A key that was set in an object of a rule is found with the value that was
/// set; other keys keep their values.
pub proof fn set_entry_is_found(
    object: Seq<(Rego, Rego)>,
    key: Seq<char>,
    value: Rego,
    other: Seq<char>,
)
    ensures
        rego::lookup(rego::with_entry(object, key, value), other) == if other == key {
            Some(value)
        } else {
            rego::lookup(object, other)
        },
{
    lemma_position(object, key);
    lemma_position(object, other);
    let at = rego::position(object, key);
    let found = rego::position(object, other);
    let after = rego::with_entry(object, key, value);
    if other == key {
        lemma_position_is(after, other, at);
    } else if found < object.len() {
        assert(found != at || at == object.len());
        lemma_position_is(after, other, found);
    } else {
        lemma_position_is(after, other, after.len() as int);
    }
}

/// Whether a configuration is the one under a name: it gives that name, and is
/// otherwise the configuration as it stands.
pub open spec fn is_named_config(config: Rego, name: Rego, fields: Rego) -> bool {
    &&& rego::field(config, "__openshell_policy_key"@) == Some(name)
    &&& forall|key: Seq<char>|
        key != "__openshell_policy_key"@ ==> #[trigger] rego::field(config, key) == rego::field(
            fields,
            key,
        )
}

proof fn lemma_named_configs(configs: Seq<(Rego, Rego)>, n: int)
    requires
        0 <= n <= configs.len(),
        forall|i: int|
            0 <= i < configs.len() ==> (#[trigger] configs[i]).0 is Text && configs[i].1 is Object,
    ensures
        chain::named_configs(configs, n) matches Ok(list) && list.len() == n && forall|i: int|
            0 <= i < n ==> is_named_config(#[trigger] list[i], configs[i].0, configs[i].1),
    decreases n,
{
    if n > 0 {
        lemma_named_configs(configs, n - 1);
        let before = chain::named_configs(configs, n - 1)->Ok_0;
        let list = chain::named_configs(configs, n)->Ok_0;
        let fields = configs[n - 1].1->Object_0;
        let name = configs[n - 1].0;
        assert(configs[n - 1].0 is Text && configs[n - 1].1 is Object);
        assert forall|i: int| 0 <= i < n implies is_named_config(
            #[trigger] list[i],
            configs[i].0,
            configs[i].1,
        ) by {
            if i < n - 1 {
                assert(list[i] == before[i]);
            } else {
                set_entry_is_found(
                    fields,
                    "__openshell_policy_key"@,
                    name,
                    "__openshell_policy_key"@,
                );
                assert forall|key: Seq<char>|
                    key != "__openshell_policy_key"@ implies #[trigger] rego::field(list[i], key)
                    == rego::field(configs[i].1, key) by {
                    set_entry_is_found(fields, "__openshell_policy_key"@, name, key);
                }
            }
        }
    }
}

/// The middleware configurations are those of the policy, in order, and each
/// knows the name that it has there.
pub proof fn configurations_know_their_names(configs: Seq<(Rego, Rego)>, debug: Seq<char>)
    requires
        forall|i: int|
            0 <= i < configs.len() ==> (#[trigger] configs[i]).0 is Text && configs[i].1 is Object,
    ensures
        chain::middleware_configs(Rego::Object(configs), debug) matches Ok(list) && list.len()
            == configs.len() && forall|i: int|
            0 <= i < list.len() ==> is_named_config(
                #[trigger] list[i],
                configs[i].0,
                configs[i].1,
            ),
{
    lemma_named_configs(configs, configs.len() as int);
}

proof fn lemma_first_fault(configs: Seq<(Rego, Rego)>, at: int, n: int)
    requires
        0 <= at < n <= configs.len(),
        forall|i: int|
            0 <= i < at ==> (#[trigger] configs[i]).0 is Text && configs[i].1 is Object,
        !(configs[at].0 is Text && configs[at].1 is Object),
    ensures
        chain::named_configs(configs, n) matches Err(fault) && (configs[at].0 is Text
            <==> fault is ConfigNotObject) && (!(configs[at].0 is Text) <==> fault is KeyNotText),
    decreases n,
{
    if n > at + 1 {
        lemma_first_fault(configs, at, n - 1);
    } else {
        lemma_all_before(configs, at);
    }
}

proof fn lemma_all_before(configs: Seq<(Rego, Rego)>, n: int)
    requires
        0 <= n <= configs.len(),
        forall|i: int|
            0 <= i < n ==> (#[trigger] configs[i]).0 is Text && configs[i].1 is Object,
    ensures
        chain::named_configs(configs, n) is Ok,
    decreases n,
{
    if n > 0 {
        lemma_all_before(configs, n - 1);
        assert(configs[n - 1].0 is Text && configs[n - 1].1 is Object);
    }
}

/// The first configuration that is malformed decides the fault: its key is no
/// text, or it is no object.
pub proof fn malformed_configuration_is_a_fault(
    configs: Seq<(Rego, Rego)>,
    debug: Seq<char>,
    at: int,
)
    requires
        0 <= at < configs.len(),
        forall|i: int|
            0 <= i < at ==> (#[trigger] configs[i]).0 is Text && configs[i].1 is Object,
        !(configs[at].0 is Text && configs[at].1 is Object),
    ensures
        chain::middleware_configs(Rego::Object(configs), debug) matches Err(fault) && (
        configs[at].0 is Text <==> fault is ConfigNotObject) && (!(configs[at].0 is Text)
            <==> fault is KeyNotText),
{
    lemma_first_fault(configs, at, configs.len() as int);
}

/// Where the rule gives nothing there are no configurations, and where it gives
/// anything but an object there is a fault that shows it.
pub proof fn configurations_are_an_object(value: Rego, debug: Seq<char>)
    requires
        !(value is Object),
    ensures
        match chain::middleware_configs(value, debug) {
            Ok(list) => value is Undefined && list.len() == 0,
            Err(fault) => !(value is Undefined) && fault == ChainFault::ConfigsNotObject(debug),
        },
{
}

/// A stage says what its configuration says: under which name it stands, which
/// middleware runs, what happens on an error, and in which place it asks to run.
pub proof fn stage_is_as_configured(
    config: Rego,
    name: Seq<char>,
    middleware: Seq<char>,
    on_error: Seq<char>,
    order: i64,
    decimal: Seq<char>,
)
    requires
        rego::field(config, "__openshell_policy_key"@) == Some(Rego::Text(name)),
        rego::field(config, "middleware"@) == Some(Rego::Text(middleware)),
        rego::field(config, "on_error"@) == Some(Rego::Text(on_error)),
        rego::field(config, "order"@) == Some(Rego::Number(Some(order), decimal)),
    ensures
        ({
            let stage = chain::stage_of(config);
            &&& stage.name == name
            &&& stage.implementation == middleware
            &&& stage.on_error == on_error
            &&& -2147483648 <= order <= 2147483647 ==> stage.order == order
            &&& !(-2147483648 <= order <= 2147483647) ==> stage.order == 0
        }),
{
}

/// A stage whose configuration leaves a text or the order out has an empty text
/// or the order zero in its place.
pub proof fn stage_has_defaults(config: Rego)
    ensures
        ({
            let stage = chain::stage_of(config);
            &&& rego::field(config, "middleware"@) is None ==> stage.implementation.len() == 0
            &&& rego::field(config, "on_error"@) is None ==> stage.on_error.len() == 0
            &&& rego::field(config, "order"@) is None ==> stage.order == 0
            &&& rego::field(config, "config"@) is None ==> stage.config.len() == 0
        }),
{
}

/// A middleware gets the fields of its configuration, in order.
pub proof fn stage_gets_its_fields(config: Rego, fields: Seq<(Rego, Rego)>)
    requires
        rego::field(config, "config"@) == Some(Rego::Object(fields)),
        forall|i: int| 0 <= i < fields.len() ==> (#[trigger] fields[i]).0 is Text,
    ensures
        ({
            let given = chain::stage_of(config).config;
            &&& given.len() == fields.len()
            &&& forall|i: int|
                #![trigger given[i]]
                0 <= i < given.len() ==> Rego::Text(given[i].0) == fields[i].0 && given[i].1
                    == struct_value::struct_value(fields[i].1)
        }),
{
    lemma_first_fields(fields, fields.len());
}

proof fn lemma_first_fields(entries: Seq<(Rego, Rego)>, n: nat)
    requires
        n <= entries.len(),
        forall|i: int| 0 <= i < entries.len() ==> (#[trigger] entries[i]).0 is Text,
    ensures
        ({
            let given = struct_value::first_fields(Rego::Object(entries), n);
            &&& given.len() == n
            &&& forall|i: int|
                #![trigger given[i]]
                0 <= i < n ==> Rego::Text(given[i].0) == entries[i].0 && given[i].1
                    == struct_value::struct_value(entries[i].1)
        }),
    decreases n,
{
    if n > 0 {
        lemma_first_fields(entries, (n - 1) as nat);
        assert(entries[n - 1].0 is Text);
    }
}

/// A value in a configuration keeps its kind and contents: flags, numbers and
/// texts as they are, lists item by item. What a struct cannot hold is null.
pub proof fn configured_value_is_kept(value: Rego)
    ensures
        match value {
            Rego::Bool(b) => struct_value::struct_value(value) == StructModel::Bool(b),
            Rego::Number(_, decimal) => struct_value::struct_value(value) == StructModel::Number(
                decimal,
            ),
            Rego::Text(s) => struct_value::struct_value(value) == StructModel::Text(s),
            Rego::Array(items) => struct_value::struct_value(value) matches StructModel::List(list)
                && list.len() == items.len() && forall|i: int|
                0 <= i < list.len() ==> #[trigger] list[i] == struct_value::struct_value(items[i]),
            Rego::Object(entries) => struct_value::struct_value(value) matches StructModel::Struct(
                list,
            ) && list == struct_value::struct_fields(value),
            _ => struct_value::struct_value(value) is Null,
        },
{
}

/// Whether a configuration applies: it selects hosts, and they match.
pub open spec fn applies(config: Rego, selection: Selection) -> bool {
    rego::field(config, "endpoints"@) is Some && selection.matches == Ok::<bool, String>(true)
}

/// The positions of the configurations that apply, among the first `n`.
pub open spec fn applying(configs: Seq<Rego>, selections: Seq<Selection>, n: nat) -> Seq<int> {
    Seq::new(n, |i: int| i).filter(|i: int| applies(configs[i], selections[i]))
}

proof fn lemma_applying(configs: Seq<Rego>, selections: Seq<Selection>, n: nat)
    requires
        n > 0,
    ensures
        applying(configs, selections, n) == if applies(configs[n - 1], selections[n - 1]) {
            applying(configs, selections, (n - 1) as nat).push(n - 1)
        } else {
            applying(configs, selections, (n - 1) as nat)
        },
{
    reveal(Seq::filter);
    let all = Seq::new(n, |i: int| i);
    assert(all.drop_last() =~= Seq::new((n - 1) as nat, |i: int| i));
    assert(all.last() == n - 1);
}

/// Whether nothing that the platform says of a configuration stands against
/// making a chain.
pub open spec fn is_faultless(config: Rego, selection: Selection) -> bool {
    rego::field(config, "endpoints"@) is Some ==> selection.matches is Ok && (
    selection.matches == Ok::<bool, String>(true) ==> selection.on_error_fault is None)
}

proof fn lemma_selected(
    configs: Seq<Rego>,
    selections: Seq<Selection>,
    max_stages: int,
    n: nat,
)
    requires
        n <= configs.len(),
        n <= selections.len(),
        forall|i: int| 0 <= i < n ==> #[trigger] is_faultless(configs[i], selections[i]),
        applying(configs, selections, n).len() <= max_stages,
    ensures
        chain::selected_stages(configs, selections, max_stages, n as int) == Ok::<
            Seq<Stage>,
            ChainFault,
        >(applying(configs, selections, n).map_values(|i: int| chain::stage_of(configs[i]))),
    decreases n,
{
    let list = applying(configs, selections, n).map_values(|i: int| chain::stage_of(configs[i]));
    if n > 0 {
        lemma_applying(configs, selections, n);
        lemma_selected(configs, selections, max_stages, (n - 1) as nat);
        let before = applying(configs, selections, (n - 1) as nat).map_values(
            |i: int| chain::stage_of(configs[i]),
        );
        assert(is_faultless(configs[n - 1], selections[n - 1]));
        if applies(configs[n - 1], selections[n - 1]) {
            assert(list =~= before.push(chain::stage_of(configs[n - 1])));
        }
    } else {
        reveal(Seq::filter);
        assert(list =~= seq![]);
    }
}

/// The stages of a chain are the configurations that apply, all of them, once
/// each and in order.
pub proof fn chain_is_made_of_what_applies(
    configs: Seq<Rego>,
    selections: Seq<Selection>,
    max_stages: int,
)
    requires
        configs.len() == selections.len(),
        forall|i: int|
            0 <= i < configs.len() ==> #[trigger] is_faultless(configs[i], selections[i]),
        applying(configs, selections, configs.len()).len() <= max_stages,
    ensures
        chain::selected_stages(configs, selections, max_stages, configs.len() as int) == Ok::<
            Seq<Stage>,
            ChainFault,
        >(
            applying(configs, selections, configs.len()).map_values(
                |i: int| chain::stage_of(configs[i]),
            ),
        ),
{
    lemma_selected(configs, selections, max_stages, configs.len());
}

/// A chain with a configuration that cannot be judged is not made: the fault
/// says that its hosts or its setting for errors are malformed.
pub proof fn unusable_configuration_makes_no_chain(
    configs: Seq<Rego>,
    selections: Seq<Selection>,
    max_stages: int,
    at: int,
    n: int,
)
    requires
        configs.len() == selections.len(),
        0 <= at < n <= configs.len(),
        forall|i: int| 0 <= i < at ==> #[trigger] is_faultless(configs[i], selections[i]),
        !is_faultless(configs[at], selections[at]),
        applying(configs, selections, at as nat).len() < max_stages,
    ensures
        chain::selected_stages(configs, selections, max_stages, n) == Err::<
            Seq<Stage>,
            ChainFault,
        >(
            match selections[at].matches {
                Err(detail) => ChainFault::Selector(detail@),
                Ok(_) => ChainFault::OnError(selections[at].on_error_fault->Some_0@),
            },
        ),
    decreases n,
{
    if n > at + 1 {
        unusable_configuration_makes_no_chain(configs, selections, max_stages, at, n - 1);
    } else {
        lemma_selected(configs, selections, max_stages, at as nat);
    }
}

/// Hosts are included and excluded as the configuration lists them.
pub proof fn selector_is_as_configured(
    config: Rego,
    selector: Rego,
    included: Seq<Rego>,
    excluded: Seq<Rego>,
)
    requires
        rego::field(config, "endpoints"@) == Some(selector),
        rego::field(selector, "include"@) == Some(Rego::Array(included)),
        rego::field(selector, "exclude"@) == Some(Rego::Array(excluded)),
        forall|i: int| 0 <= i < included.len() ==> #[trigger] included[i] is Text,
        forall|i: int| 0 <= i < excluded.len() ==> #[trigger] excluded[i] is Text,
    ensures
        chain::patterns_of(config) matches Some(patterns) && {
            &&& included == patterns.0.map_values(|s: Seq<char>| Rego::Text(s))
            &&& excluded == patterns.1.map_values(|s: Seq<char>| Rego::Text(s))
        },
{
    lemma_texts(included);
    lemma_texts(excluded);
}

proof fn lemma_texts(items: Seq<Rego>)
    requires
        forall|i: int| 0 <= i < items.len() ==> #[trigger] items[i] is Text,
    ensures
        items == rego::texts_among(items).map_values(|s: Seq<char>| Rego::Text(s)),
    decreases items.len(),
{
    let shown = rego::texts_among(items).map_values(|s: Seq<char>| Rego::Text(s));
    if items.len() > 0 {
        let front = items.drop_last();
        assert forall|i: int| 0 <= i < front.len() implies #[trigger] front[i] is Text by {
            assert(front[i] == items[i]);
        }
        lemma_texts(front);
        assert(items.last() is Text);
        let before = rego::texts_among(front).map_values(|s: Seq<char>| Rego::Text(s));
        assert(shown =~= before.push(items.last()));
        assert(items =~= front.push(items.last()));
    }
    assert(items =~= shown);
}

} // verus!
